use rockboxd::netstream::{
    after_end, after_error, content_range_start, content_range_total, content_type_copy_len,
    media_type_of, normalize_url, plan_seek, resume_range, seek_range_header, seek_retry_delay_ms,
    seek_start, DrainStep, Prefetch, RangedReply, ReadStep, ReaderStep, SeekPlan, SeekStart,
    StreamInfo, after_read, ReadResult, ReaderAction, MAX_RETRIES, MAX_SKIP, PREFETCH_CAP, SEEK_CUR, SEEK_END, SEEK_SET,
};

fn info(len: Option<u64>) -> StreamInfo {
    StreamInfo::from_reply("http://h/a.mp3".to_string(), 200, len, None).unwrap()
}

#[test]
fn test_open_404() {
    assert!(StreamInfo::from_reply("http://h/missing.mp3".to_string(), 404, None, None).is_none());
}

#[test]
fn test_known_content_length() {
    let s = info(Some(16));
    assert_eq!(s.content_length, Some(16));
    assert_eq!(s.pos, 0);
}

#[test]
fn test_unknown_content_length() {
    let mut s = info(None);
    assert_eq!(s.content_length, None);
    assert_eq!(s.begin_seek(-2, SEEK_END), SeekPlan::Fail);
}

#[test]
fn test_content_type_is_available() {
    let s = StreamInfo::from_reply("u".to_string(), 200, Some(4), Some(" Audio/MPEG; charset=x"))
        .unwrap();
    assert_eq!(s.content_type.as_deref(), Some("audio/mpeg"));
    assert_eq!(media_type_of("  ;x"), None);
}

#[test]
fn test_read_bytes() {
    let mut p = Prefetch::new();
    assert!(p.accept_chunk(b"0123456789"));
    assert_eq!(p.read_step(4), ReadStep::Copy(4));
    assert_eq!(p.take_front(4), b"0123".to_vec());
    assert_eq!(p.read_step(100), ReadStep::Copy(6));
    assert_eq!(p.take_front(6), b"456789".to_vec());
    assert_eq!(p.bytes_written, 10);
}

#[test]
fn test_read_eof() {
    let mut p = Prefetch::new();
    assert_eq!(p.read_step(8), ReadStep::Wait);
    p.eof = true;
    assert_eq!(p.read_step(8), ReadStep::Return(0));
    let mut q = Prefetch::new();
    q.error = true;
    assert_eq!(q.read_step(8), ReadStep::Return(-1));
    assert_eq!(q.read_step(0), ReadStep::Return(0));
}

#[test]
fn test_seek_set_range_request() {
    // A forward seek within the prefetch capacity drains buffered bytes.
    assert_eq!(plan_seek(0, Some(16), 8, SEEK_SET), SeekPlan::Move(8));
    assert_eq!(seek_start(0, 8), SeekStart::Drain(8));
    assert_eq!(seek_range_header(8, Some(16)), "bytes=8-15");
}

#[test]
fn test_seek_cur_no_op() {
    assert_eq!(plan_seek(5, Some(10), 0, SEEK_CUR), SeekPlan::Stay(5));
}

#[test]
fn test_seek_end() {
    assert_eq!(plan_seek(0, Some(10), -2, SEEK_END), SeekPlan::Move(8));
}

#[test]
fn test_seek_end_unknown_length() {
    assert_eq!(plan_seek(0, Some(4), -100, SEEK_END), SeekPlan::Fail);
    assert_eq!(plan_seek(0, None, 0, SEEK_END), SeekPlan::Fail);
}

#[test]
fn test_seek_range_not_supported() {
    // A backward seek needs a ranged request; a 416 answer fails it.
    assert_eq!(plan_seek(60, Some(100), 10, SEEK_SET), SeekPlan::Move(10));
    assert_eq!(seek_start(60, 10), SeekStart::Ranged);
    let mut s = info(Some(100));
    s.pos = 60;
    assert_eq!(s.take_ranged_reply(10, 416, None, None, None), RangedReply::Reject);
    assert_eq!(s.pos, 60);
}

#[test]
fn test_seek_falls_back_when_range_is_ignored() {
    let mut s = info(Some(16));
    assert_eq!(
        s.take_ranged_reply(8, 200, None, Some(16), None),
        RangedReply::SkipThenAccept(8)
    );
    // Too far to skip by reading.
    assert_eq!(
        s.take_ranged_reply(600 * 1024, 200, None, Some(16), None),
        RangedReply::Reject
    );
}

#[test]
fn test_seek_rejects_wrong_content_range_start() {
    let mut s = info(Some(16));
    s.pos = 10;
    assert_eq!(
        s.take_ranged_reply(4, 206, Some("bytes 0-7/16"), None, None),
        RangedReply::Reject
    );
    assert_eq!(s.pos, 10);
}

#[test]
fn test_content_length_from_content_range() {
    let mut s = info(Some(10));
    assert_eq!(seek_range_header(5, s.content_length), "bytes=5-9");
    assert_eq!(
        s.take_ranged_reply(5, 206, Some("bytes 5-9/10"), None, None),
        RangedReply::Accept
    );
    assert_eq!(s.pos, 5);
    assert_eq!(s.content_length, Some(10));
    // An unknown length is learnt from the reply.
    let mut t = info(None);
    assert_eq!(
        t.take_ranged_reply(5, 206, Some("bytes 5-9/10"), None, Some("audio/flac")),
        RangedReply::Accept
    );
    assert_eq!(t.content_length, Some(10));
    assert_eq!(t.content_type.as_deref(), Some("audio/flac"));
}

#[test]
fn test_seek_past_eof_is_clamped() {
    let mut s = info(Some(10));
    assert_eq!(s.begin_seek(10, SEEK_SET), SeekPlan::ClampToEnd(10));
    assert_eq!(s.pos, 10);
    let mut p = Prefetch::new();
    p.accept_chunk(b"abc");
    p.mark_eof();
    assert_eq!(p.read_step(16), ReadStep::Return(0));
}

#[test]
fn huge_forward_seeks_fail() {
    assert_eq!(plan_seek(0, None, (MAX_SKIP + 1) as i64, SEEK_SET), SeekPlan::Fail);
    assert_eq!(plan_seek(0, None, MAX_SKIP as i64, SEEK_SET), SeekPlan::Move(MAX_SKIP));
    assert_eq!(plan_seek(3, None, -4, SEEK_CUR), SeekPlan::Fail);
    assert_eq!(plan_seek(3, None, 1, 7), SeekPlan::Fail);
    assert_eq!(seek_start(0, PREFETCH_CAP as u64 + 1), SeekStart::Ranged);
}

#[test]
fn url_and_headers() {
    assert_eq!(normalize_url("  http://h/a.mp3#frag \n"), "http://h/a.mp3");
    assert_eq!(content_range_total("bytes 0-1/ 42 "), Some(42));
    assert_eq!(content_range_total("bytes 0-1/*"), None);
    assert_eq!(content_range_start("bytes 7-9/10"), Some(7));
    assert_eq!(content_range_start("items 7-9/10"), None);
    assert_eq!(resume_range(123), "bytes=123-");
    assert_eq!(seek_range_header(3, None), "bytes=3-");
    assert_eq!(seek_range_header(3, Some(0)), "bytes=3-");
    assert_eq!(seek_retry_delay_ms(2), 600);
    assert_eq!(content_type_copy_len(10, 4), 3);
    assert_eq!(content_type_copy_len(2, 4), 2);
    assert_eq!(content_type_copy_len(2, 0), 0);
}

#[test]
fn reader_resumes_early_ends_and_errors() {
    assert_eq!(
        after_end(100, 50, Some(80), 0),
        ReaderStep::Reconnect { attempt: 1, offset: 150, delay_ms: 200 }
    );
    assert_eq!(after_end(100, 80, Some(80), 0), ReaderStep::Finish);
    assert_eq!(after_end(0, 10, None, 0), ReaderStep::Finish);
    assert_eq!(after_end(0, 10, Some(80), MAX_RETRIES), ReaderStep::Finish);
    assert_eq!(
        after_error(0, 7, 2),
        ReaderStep::Reconnect { attempt: 3, offset: 7, delay_ms: 600 }
    );
    assert_eq!(after_error(0, 7, MAX_RETRIES), ReaderStep::Finish);
}

#[test]
fn drain_discards_then_waits() {
    let mut p = Prefetch::new();
    p.accept_chunk(b"abcdef");
    assert_eq!(p.drain_step(4), DrainStep::Done);
    assert_eq!(p.take_front(2), b"ef".to_vec());
    p.accept_chunk(b"xy");
    assert_eq!(p.drain_step(5), DrainStep::Wait(3));
    p.eof = true;
    assert_eq!(p.drain_step(3), DrainStep::Failed);
    assert_eq!(p.drain_step(0), DrainStep::Done);
    let mut q = Prefetch::new();
    q.stop = true;
    assert!(!q.accept_chunk(b"zz"));
    assert!(!q.reader_waits());
}

#[test]
fn reader_appends_then_resumes_where_it_stopped() {
    let mut p = Prefetch::new();
    let mut retries: u32 = 3;
    let a = after_read(&mut p, &mut retries, 100, Some(10), ReadResult::Data(b"abcd".to_vec()));
    assert_eq!(a, ReaderAction::ReadMore);
    assert_eq!(retries, 0);
    assert_eq!(p.bytes_written, 4);
    assert_eq!(p.take_front(4), b"abcd".to_vec());
    let e = after_read(&mut p, &mut retries, 100, Some(10), ReadResult::End);
    assert_eq!(e, ReaderAction::Reconnect { offset: 104, delay_ms: 200 });
    assert_eq!(retries, 1);
    assert!(!p.eof);
    let f = after_read(&mut p, &mut retries, 100, Some(10), ReadResult::Failed);
    assert_eq!(f, ReaderAction::Reconnect { offset: 104, delay_ms: 400 });
    assert_eq!(retries, 2);
}

#[test]
fn reader_gives_up_and_stops() {
    let mut p = Prefetch::new();
    let mut retries: u32 = MAX_RETRIES;
    assert_eq!(after_read(&mut p, &mut retries, 0, None, ReadResult::Failed), ReaderAction::Stop);
    assert!(p.error);
    let mut q = Prefetch::new();
    let mut r: u32 = 0;
    assert_eq!(after_read(&mut q, &mut r, 0, Some(0), ReadResult::End), ReaderAction::Stop);
    assert!(q.eof);
    q.stop = true;
    assert_eq!(after_read(&mut q, &mut r, 0, None, ReadResult::Data(b"zz".to_vec())), ReaderAction::Stop);
    assert_eq!(q.bytes_written, 0);
}

#[test]
fn reader_run_fails_after_nine_failures_in_a_row() {
    let mut p = Prefetch::new();
    let mut retries: u32 = 0;
    assert_eq!(after_read(&mut p, &mut retries, 5, None, ReadResult::Data(b"xyz".to_vec())), ReaderAction::ReadMore);
    for n in 1..=8u64 {
        let a = after_read(&mut p, &mut retries, 5, None, ReadResult::Failed);
        assert_eq!(a, ReaderAction::Reconnect { offset: 8, delay_ms: 200 * n });
        assert!(!p.error);
    }
    assert_eq!(after_read(&mut p, &mut retries, 5, None, ReadResult::Failed), ReaderAction::Stop);
    assert!(p.error);
    assert_eq!(p.bytes_written, 3);
    assert_eq!(p.take_front(3), b"xyz".to_vec());
}
