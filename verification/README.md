# rockboxd

The logic of the rockbox daemon — its S3 gateway, network streams, Subsonic
server and clients, Plex browsing, the file tree, the firmware bus, the
playback broker, the audio-output routing and the smart-playlist joins —
as a library whose functions carry contracts proved with Verus.

- `src/` — the verified library, one module per concern:
  - `sigv4`, `s3`, `xml` — AWS Signature V4 checking, the S3 gateway's
    answers and its XML documents;
  - `netstream` — the planning of network streams: seeks, ranged replies,
    reconnects and the prefetch buffer;
  - `subsonic`, `subsonic_xml`, `subsonic_lists`, `navidrome` — the
    Subsonic server's authentication, parameters, album lists, searches
    and documents, and the client's URLs;
  - `plex`, `browse` — Plex listings and the tree paths of remote servers;
  - `fw_bus`, `broker`, `server`, `dsp`, `output`, `settings`, `playlists`,
    `rocksky`, `network` — the player's own decisions;
  - `text`, `codec`, `ordered`, `library` — shared text, encoding and
    ordering functions and the library records;
  - `outside` — the calls into hashing, date, URL and Unicode code that are
    trusted rather than proved, each with its stated contract.
- `tests/` — tests of the library on concrete values.
- `app/` — the run-time around the library: the C ABI of network streams,
  the process-wide firmware bus, the S3 HTTP handlers, remote fetching and
  disk reads of the file tree, and the output devices.

Verify with Verus on `src/lib.rs`; the tests run with the outside crates
named in `Cargo.toml`.
