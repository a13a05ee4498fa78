use rockboxd::sigv4::{
    canonical_headers, canonical_query, collapse_ws, constant_time_eq, derive_signing_key,
    parse_authorization, verify_at, AuthInput, Header, SigV4Error,
};

fn hex(b: &[u8]) -> String {
    b.iter().map(|x| format!("{:02x}", x)).collect()
}

#[test]
fn signing_key_is_deterministic_and_varies() {
    let a = derive_signing_key("secret", "20240101", "us-east-1", "s3");
    let b = derive_signing_key("secret", "20240101", "us-east-1", "s3");
    assert_eq!(a, b, "same inputs must produce same key");

    assert_ne!(a, derive_signing_key("other", "20240101", "us-east-1", "s3"),);
    assert_ne!(a, derive_signing_key("secret", "20240102", "us-east-1", "s3"),);
    assert_ne!(a, derive_signing_key("secret", "20240101", "us-west-2", "s3"),);
    assert_ne!(a, derive_signing_key("secret", "20240101", "us-east-1", "iam"),);
    assert_eq!(a.len(), 32, "HMAC-SHA256 output is 32 bytes");
}

#[test]
fn collapses_whitespace() {
    assert_eq!(collapse_ws("a   b\tc"), "a b c");
}

#[test]
fn canonical_query_sorts_and_encodes() {
    assert_eq!(canonical_query(""), "");
    assert_eq!(
        canonical_query("b=2&a=1"),
        "a=1&b=2",
        "query params must be sorted by name"
    );
    assert_eq!(
        canonical_query("prefix=foo/bar&list-type=2"),
        "list-type=2&prefix=foo%2Fbar",
        "values must be %-encoded (slash too)"
    );
}

#[test]
fn signing_key_matches_published_example() {
    // The worked example of the SigV4 documentation.
    let k = derive_signing_key(
        "wJalrXUtnFEMI/K7MDENG+bPxRfiCYEXAMPLEKEY",
        "20120215",
        "us-east-1",
        "iam",
    );
    assert_eq!(
        hex(&k),
        "f4780e2d9f65fa895f9c67b32ce1baf0b0d8a43505a000a1a9e090d414db404d"
    );
}

#[test]
fn collapse_keeps_single_spaces_and_leading_runs() {
    assert_eq!(collapse_ws("  x  "), " x ");
    assert_eq!(collapse_ws("\t\t"), " ");
    assert_eq!(collapse_ws(""), "");
}

#[test]
fn canonical_query_decodes_and_sorts_by_value() {
    assert_eq!(canonical_query("a=2&a=1&&b"), "a=1&a=2&b=");
    assert_eq!(canonical_query("x=%41%2f~"), "x=A%2F~");
    assert_eq!(canonical_query("k=a=b"), "k=a%3Db");
}

#[test]
fn constant_time_eq_compares_bytes() {
    assert!(constant_time_eq(b"abc", b"abc"));
    assert!(!constant_time_eq(b"abc", b"abd"));
    assert!(!constant_time_eq(b"abc", b"ab"));
    assert!(constant_time_eq(b"", b""));
}

#[test]
fn parse_authorization_reads_all_parts() {
    let p = parse_authorization(
        "AWS4-HMAC-SHA256 Credential=AK/20130524/us-east-1/s3/aws4_request, SignedHeaders=Host;X-Amz-Date , Signature= abc ",
    )
    .ok()
    .unwrap();
    assert_eq!(p.credential.access_key, "AK");
    assert_eq!(p.credential.date, "20130524");
    assert_eq!(p.credential.region, "us-east-1");
    assert_eq!(p.credential.service, "s3");
    assert_eq!(p.credential.terminator, "aws4_request");
    assert_eq!(p.signed_headers, vec!["host".to_string(), "x-amz-date".to_string()]);
    assert_eq!(p.signature, "abc");
}

#[test]
fn parse_authorization_errors() {
    assert!(matches!(
        parse_authorization("Basic xyz"),
        Err(SigV4Error::Malformed("scheme"))
    ));
    assert!(matches!(
        parse_authorization("AWS4-HMAC-SHA256 Credential=a/b/c, SignedHeaders=x, Signature=y"),
        Err(SigV4Error::Malformed("credential"))
    ));
    assert!(matches!(
        parse_authorization("AWS4-HMAC-SHA256 SignedHeaders=x, Signature=y"),
        Err(SigV4Error::Malformed("Credential"))
    ));
    assert!(matches!(
        parse_authorization("AWS4-HMAC-SHA256 Credential=a/b/c/d/e, Signature=y"),
        Err(SigV4Error::Malformed("SignedHeaders"))
    ));
    assert!(matches!(
        parse_authorization("AWS4-HMAC-SHA256 Credential=a/b/c/d/e, SignedHeaders=x"),
        Err(SigV4Error::Malformed("Signature"))
    ));
    let p = parse_authorization("AWS4-HMAC-SHA256 Credential=a/b/c/d/e/f, SignedHeaders=x, Signature=y")
        .ok()
        .unwrap();
    assert_eq!(p.credential.terminator, "e/f");
}

fn h(name: &str, value: &str) -> Header {
    Header { name: name.to_string(), value: Some(value.to_string()) }
}

#[test]
fn canonical_headers_sorts_and_cleans() {
    let hs = vec![h("x-b", "  two   words "), h("host", "example.com"), h("x-b", "ignored")];
    let signed = vec!["x-b".to_string(), "host".to_string(), "missing".to_string()];
    let (block, names) = canonical_headers(&hs, &signed);
    assert_eq!(block, "host:example.com\nx-b:two words");
    assert_eq!(names, "host;x-b");
}

fn example_headers(auth: &str) -> Vec<Header> {
    vec![
        h("host", "examplebucket.s3.amazonaws.com"),
        h("range", "bytes=0-9"),
        h(
            "x-amz-content-sha256",
            "e3b0c44298fc1c149afbf4c8996fb92427ae41e4649b934ca495991b7852b855",
        ),
        h("x-amz-date", "20130524T000000Z"),
        h("authorization", auth),
    ]
}

const EXAMPLE_AUTH: &str = "AWS4-HMAC-SHA256 Credential=SECRET-REDACTED/20130524/us-east-1/s3/aws4_request,SignedHeaders=host;range;x-amz-content-sha256;x-amz-date,Signature=f0e8bdb87c964420e857bd35b5d6ed310bd44f0170aba48dd91039c6036bdb41";

fn example_input<'a>(headers: &'a [Header], secret: &'a str) -> AuthInput<'a> {
    AuthInput {
        method: "GET",
        path: "/test.txt",
        query: "",
        headers,
        body_sha256_hex: "e3b0c44298fc1c149afbf4c8996fb92427ae41e4649b934ca495991b7852b855",
        access_key: "SECRET-REDACTED",
        secret_key: secret,
        region: "us-east-1",
    }
}

#[test]
fn verify_accepts_published_get_object_example() {
    let hs = example_headers(EXAMPLE_AUTH);
    let input = example_input(&hs, "wJalrXUtnFEMI/K7MDENG/bPxRfiCYEXAMPLEKEY");
    // 2013-05-24T00:00:00Z
    assert!(verify_at(&input, 1369353600, 0).is_ok());
}

#[test]
fn verify_rejects_wrong_secret_and_skew() {
    let hs = example_headers(EXAMPLE_AUTH);
    let input = example_input(&hs, "not-the-secret");
    assert!(matches!(verify_at(&input, 1369353600, 0), Err(SigV4Error::SignatureMismatch)));
    let input = example_input(&hs, "wJalrXUtnFEMI/K7MDENG/bPxRfiCYEXAMPLEKEY");
    assert!(matches!(verify_at(&input, 1369353600 + 901, 0), Err(SigV4Error::SkewTooLarge)));
    assert!(verify_at(&input, 1369353600 + 900, 999_999_999).is_ok());
    assert!(matches!(verify_at(&input, 1369353600 - 901, 0), Err(SigV4Error::SkewTooLarge)));
}

#[test]
fn verify_reports_missing_and_mismatched_parts() {
    let input_hs: Vec<Header> = vec![];
    let input = example_input(&input_hs, "s");
    assert!(matches!(verify_at(&input, 0, 0), Err(SigV4Error::Missing("Authorization"))));
    let hs = vec![h("authorization", EXAMPLE_AUTH)];
    let input = example_input(&hs, "s");
    assert!(matches!(verify_at(&input, 0, 0), Err(SigV4Error::Missing("x-amz-date"))));
    let mut hs = example_headers(EXAMPLE_AUTH);
    hs[2] = h("x-amz-content-sha256", "STREAMING-AWS4-HMAC-SHA256-PAYLOAD");
    let input = example_input(&hs, "s");
    assert!(matches!(verify_at(&input, 1369353600, 0), Err(SigV4Error::UnsupportedPayload)));
    let hs = example_headers(EXAMPLE_AUTH);
    let mut input = example_input(&hs, "s");
    input.access_key = "OTHER";
    assert!(matches!(verify_at(&input, 1369353600, 0), Err(SigV4Error::AccessKeyMismatch)));
    let mut input = example_input(&hs, "s");
    input.region = "eu-west-1";
    assert!(matches!(verify_at(&input, 1369353600, 0), Err(SigV4Error::ScopeMismatch)));
    let mut input = example_input(&hs, "s");
    input.body_sha256_hex = "00";
    assert!(matches!(verify_at(&input, 1369353600, 0), Err(SigV4Error::SignatureMismatch)));
}

#[test]
fn error_messages() {
    assert_eq!(SigV4Error::Missing("x-amz-date").message(), "missing header: x-amz-date");
    assert_eq!(SigV4Error::SkewTooLarge.message(), "request timestamp skew too large");
}
