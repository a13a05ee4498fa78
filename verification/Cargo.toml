[package]
name = "rockboxd"
version = "0.1.0"
edition = "2021"
publish = false

[dependencies]
hmac = "=0.12.1"
sha2 = "=0.10.9"
hex = "=0.4.3"
md5 = "=0.7.0"
chrono = { version = "=0.4.45", default-features = false, features = ["clock", "std"] }
percent-encoding = "=2.3.2"
serde = { version = "=1.0.229", features = ["derive"] }
serde_json = "=1.0.154"
reqwest = { version = "=0.12.28", default-features = false, features = ["blocking", "json", "rustls-tls"] }
actix-web = { version = "=4.18.1", default-features = false, features = ["macros"] }
tokio = { version = "=1.54.1", features = ["rt-multi-thread", "macros"] }
libc = "=0.2.191"
once_cell = "=1.21.4"
tracing = "=0.1.44"
sha256 = { version = "=1.6.0", default-features = false }
mime_guess = "=2.0.5"
rand = "=0.8.5"
