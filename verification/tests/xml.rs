use rockboxd::xml::{error, esc};

#[test]
fn esc_replaces_the_five_entities() {
    assert_eq!(esc("a&b<c>d\"e'f"), "a&amp;b&lt;c&gt;d&quot;e&apos;f");
    assert_eq!(esc("plain"), "plain");
}

#[test]
fn error_document_is_escaped() {
    assert_eq!(
        error("NoSuchKey", "a<b", "/x&y", "rid"),
        "<?xml version=\"1.0\" encoding=\"UTF-8\"?><Error><Code>NoSuchKey</Code><Message>a&lt;b</Message><Resource>/x&amp;y</Resource><RequestId>rid</RequestId></Error>"
    );
}
