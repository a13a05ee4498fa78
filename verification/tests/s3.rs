use rockboxd::s3::{
    auth_error, bucket_resource, check_bucket, content_type_for, delete_reply, empty_body_hash,
    etag_hex, http_date, internal_error, is_audio_key, iso8601, list_buckets_body,
    list_objects_body, object_get_reply, object_head_step, object_resource, resolve_key,
    sorted_keys, unauthorised, FileFailure, FileInfo, ObjectMeta, ObjectReply, ObjectStep, Removal,
    S3State,
};
use rockboxd::sigv4::SigV4Error;

fn state() -> S3State {
    S3State {
        music_dir: "/music".to_string(),
        access_key: "AK".to_string(),
        secret_key: "SK".to_string(),
        bucket: "rockbox".to_string(),
        region: "us-east-1".to_string(),
    }
}

fn meta(size: u64) -> Option<ObjectMeta> {
    Some(ObjectMeta { size, last_modified: "2024-01-02T03:04:05.000Z".to_string() })
}

#[test]
fn keys_resolve_inside_the_music_directory() {
    assert_eq!(resolve_key("/music", "a/b.mp3"), Some("/music/a/b.mp3".to_string()));
    assert_eq!(resolve_key("/music/", "a.mp3"), Some("/music/a.mp3".to_string()));
    assert_eq!(resolve_key("/music", "a/b/./c.mp3/"), Some("/music/a/b/c.mp3".to_string()));
    assert_eq!(resolve_key("/music", "a//b"), None);
    assert_eq!(resolve_key("/music", "a//b.mp3"), None);
    assert_eq!(resolve_key("/music", ""), None);
    assert_eq!(resolve_key("/music", "/etc/passwd"), None);
    assert_eq!(resolve_key("/music", "../x.mp3"), None);
    assert_eq!(resolve_key("/music", "a/../../x.mp3"), None);
    assert_eq!(resolve_key("/music", "./a.mp3"), None);
    assert_eq!(resolve_key("/music", "a\0b"), None);
}

#[test]
fn audio_keys_by_extension() {
    assert!(is_audio_key("x/Song.FLAC"));
    assert!(is_audio_key("a.b.mp3"));
    assert!(!is_audio_key("cover.jpg"));
    assert!(!is_audio_key(".mp3"));
    assert!(!is_audio_key("noext"));
    assert!(!is_audio_key("dir.mp3/.."));
    assert_eq!(content_type_for("a/b.Mp3"), "audio/mpeg");
    assert_eq!(content_type_for("b.opus"), "audio/ogg");
    assert_eq!(content_type_for("b.aif"), "audio/aiff");
    assert_eq!(content_type_for("b.wv"), "application/octet-stream");
}

#[test]
fn etags_and_hashes() {
    assert_eq!(
        empty_body_hash(),
        "e3b0c44298fc1c149afbf4c8996fb92427ae41e4649b934ca495991b7852b855"
    );
    assert_eq!(etag_hex(b""), "\"e3b0c44298fc1c149afbf4c8996fb924\"");
    assert_eq!(etag_hex(b"abc"), "\"ba7816bf8f01cfea414140de5dae2223\"");
}

#[test]
fn dates() {
    assert_eq!(iso8601(0, 0), "1970-01-01T00:00:00.000Z");
    assert_eq!(iso8601(1369353600, 5_000_000), "2013-05-24T00:00:00.005Z");
    assert_eq!(http_date(0, 0), "Thu, 01 Jan 1970 00:00:00 GMT");
}

#[test]
fn bucket_and_errors() {
    assert!(check_bucket(&state(), "rockbox", "/rockbox").is_ok());
    let e = check_bucket(&state(), "other", "/other").unwrap_err();
    assert_eq!((e.status, e.code.as_str()), (404, "NoSuchBucket"));
    assert!(e.body().contains("<Resource>/other</Resource>"));
    assert_eq!(bucket_resource("b"), "/b");
    assert_eq!(object_resource("b", "k/x.mp3"), "/b/k/x.mp3");
    let m = auth_error(&SigV4Error::Missing("authorization"), "/r");
    assert_eq!((m.status, m.code.as_str()), (403, "AccessDenied"));
    let k = auth_error(&SigV4Error::AccessKeyMismatch, "/r");
    assert_eq!(k.code, "InvalidAccessKeyId");
    let s = auth_error(&SigV4Error::SkewTooLarge, "/r");
    assert_eq!(s.code, "RequestTimeTooSkewed");
    let p = auth_error(&SigV4Error::UnsupportedPayload, "/r");
    assert_eq!((p.status, p.code.as_str()), (501, "NotImplemented"));
    let g = auth_error(&SigV4Error::SignatureMismatch, "/r");
    assert_eq!((g.status, g.code.as_str(), g.message.as_str()), (403, "SignatureDoesNotMatch", "signature mismatch"));
    assert_eq!(unauthorised("/r", "why").message, "why");
    let i = internal_error(FileFailure::Write, "/r");
    assert_eq!((i.status, i.message.as_str()), (500, "Failed to write object"));
    assert_eq!(delete_reply(Removal::NotFound, "/r").ok(), Some(204));
    assert_eq!(delete_reply(Removal::Removed, "/r").ok(), Some(204));
    assert_eq!(delete_reply(Removal::Failed, "/r").unwrap_err().status, 500);
}

#[test]
fn listing_with_prefix_delimiter_and_limit() {
    let keys = sorted_keys(vec![
        "b/y.mp3".to_string(),
        "a.mp3".to_string(),
        "b/x.mp3".to_string(),
        "c/z.flac".to_string(),
    ]);
    assert_eq!(keys, vec!["a.mp3", "b/x.mp3", "b/y.mp3", "c/z.flac"]);
    let metas = vec![meta(1), meta(2), meta(3), None];
    let body = list_objects_body("rockbox", "list-type=2&delimiter=%2F", &keys, &metas);
    assert!(body.contains("<KeyCount>3</KeyCount>"));
    assert!(body.contains("<IsTruncated>false</IsTruncated>"));
    assert!(body.contains("<Delimiter>/</Delimiter>"));
    assert!(body.contains("<Contents><Key>a.mp3</Key><LastModified>2024-01-02T03:04:05.000Z</LastModified><Size>1</Size>"));
    assert!(body.contains("<CommonPrefixes><Prefix>b/</Prefix></CommonPrefixes><CommonPrefixes><Prefix>c/</Prefix></CommonPrefixes>"));

    let only_b = list_objects_body("rockbox", "prefix=b%2F", &keys, &metas);
    assert!(only_b.contains("<Prefix>b/</Prefix><KeyCount>2</KeyCount><MaxKeys>1000</MaxKeys>"));
    assert!(!only_b.contains("a.mp3"));

    let cut = list_objects_body("rockbox", "max-keys=1", &keys, &metas);
    assert!(cut.contains("<KeyCount>1</KeyCount><MaxKeys>1</MaxKeys><IsTruncated>true</IsTruncated>"));

    let capped = list_objects_body("rockbox", "max-keys=5000", &keys, &metas);
    assert!(capped.contains("<MaxKeys>1000</MaxKeys>"));
    // A key whose metadata could not be read is passed over.
    let missing = list_objects_body("rockbox", "prefix=c", &keys, &metas);
    assert!(missing.contains("<KeyCount>0</KeyCount>"));
}

#[test]
fn conditional_gets() {
    let f = FileInfo { is_file: true, len: 3, modified_secs: 0, modified_nanos: 0 };
    match object_head_step("a.mp3", "/r", false, &Some(FileInfo { ..f })) {
        ObjectStep::Reply(ObjectReply::Found(h)) => {
            assert_eq!(h.content_length, 3);
            assert_eq!(h.content_type, "audio/mpeg");
            assert_eq!(h.last_modified, "Thu, 01 Jan 1970 00:00:00 GMT");
            assert!(h.etag.is_none());
        }
        _ => panic!("HEAD answers from metadata"),
    }
    assert!(matches!(object_head_step("a.mp3", "/r", true, &Some(FileInfo { ..f })), ObjectStep::ReadBody));
    match object_head_step("a.mp3", "/r", true, &None) {
        ObjectStep::Reply(ObjectReply::Error(e)) => assert_eq!(e.code, "NoSuchKey"),
        _ => panic!("missing file"),
    }
    let etag = etag_hex(b"abc");
    assert!(matches!(
        object_get_reply("a.mp3", "/r", &f, Some(&b"abc"[..]), Some(etag.as_str()), None),
        ObjectReply::NotModified
    ));
    match object_get_reply("a.mp3", "/r", &f, Some(&b"abc"[..]), None, Some("\"other\"")) {
        ObjectReply::Error(e) => assert_eq!((e.status, e.code.as_str()), (412, "PreconditionFailed")),
        _ => panic!("If-Match mismatch"),
    }
    match object_get_reply("a.mp3", "/r", &f, Some(&b"abc"[..]), Some("\"x\""), Some(etag.as_str())) {
        ObjectReply::Found(h) => assert_eq!(h.etag.as_deref(), Some(etag.as_str())),
        _ => panic!("plain GET"),
    }
    match object_get_reply("a.mp3", "/r", &f, None, None, None) {
        ObjectReply::Error(e) => assert_eq!(e.status, 500),
        _ => panic!("read failure"),
    }
}

#[test]
fn bucket_list_document() {
    let b = list_buckets_body("rockbox", 0, 0);
    assert!(b.starts_with("<?xml version=\"1.0\" encoding=\"UTF-8\"?><ListAllMyBucketsResult"));
    assert!(b.contains("<Name>rockbox</Name><CreationDate>1970-01-01T00:00:00.000Z</CreationDate>"));
}
