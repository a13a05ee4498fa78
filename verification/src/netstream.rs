//! Seekable HTTP streams: the prefetch buffer of a stream and every
//! decision of its reader (where a seek lands, how a ranged reply is judged,
//! when a dropped connection is resumed), apart from the network and thread
//! work that carries them out.
use std::collections::VecDeque;
use vstd::prelude::*;

use crate::codec::dec;
use crate::codec::dec_chars;
use crate::codec::parse_unsigned;
use crate::codec::parse_unsigned_chars;
use crate::text::before_first;
use crate::text::chars_of;
use crate::text::extend_chars;
use crate::text::find_char;
use crate::text::find_char_exec;
use crate::text::lemma_split_nonempty;
use crate::text::lower;
use crate::text::lower_chars;
use crate::text::opt_chars;
use crate::text::opt_str_chars;
use crate::text::slice_of;
use crate::text::split;
use crate::text::split_chars;
use crate::text::string_of;
use crate::text::strip_prefix;
use crate::text::strip_prefix_chars;
use crate::text::trim;
use crate::text::trim_chars;

verus! {

broadcast use vstd::std_specs::vecdeque::group_vec_dequeue_axioms;

/// The handle returned when a stream cannot be opened.
pub const INVALID_HANDLE: i32 = -1;

/// Capacity of the prefetch buffer of one stream, in bytes (4 MiB).
pub const PREFETCH_CAP: usize = 4194304;

/// Reconnect attempts of a reader before it gives up.
pub const MAX_RETRIES: u32 = 8;

/// Attempts of the ranged request of one seek.
pub const SEEK_RETRIES: u32 = 3;

/// The longest forward seek accepted, in bytes (256 MiB).
pub const MAX_SKIP: u64 = 268435456;

/// The furthest offset reached by reading and discarding when a server
/// ignores `Range` (512 KiB).
pub const UNRANGED_SKIP_LIMIT: u64 = 524288;

/// `whence` of an absolute seek.
pub const SEEK_SET: i32 = 0;

/// `whence` of a seek relative to the current position.
pub const SEEK_CUR: i32 = 1;

/// `whence` of a seek relative to the end of the stream.
pub const SEEK_END: i32 = 2;

// ── Spec model ──────────────────────────────────────────────────────────────

/// A URL as the stream opens it: trimmed, without its fragment.
pub open spec fn normalized_url(url: Seq<char>) -> Seq<char> {
    before_first(trim(url), '#')
}

/// The media type of a `Content-Type` value: the part before any `;`,
/// trimmed and lower-cased; nothing when that is empty.
pub open spec fn media_type(value: Seq<char>) -> Option<Seq<char>> {
    let t = trim(before_first(value, ';'));
    if t.len() == 0 {
        None
    } else {
        Some(lower(t))
    }
}

/// The total length named by a `Content-Range` value: what follows its last
/// `/`, trimmed, read as a `u64`.
pub open spec fn range_total(value: Seq<char>) -> Option<nat> {
    parse_unsigned(trim(split(value, '/').last()), u64::MAX as nat)
}

/// The first byte named by a `Content-Range` value `bytes S-E/T`.
pub open spec fn range_start(value: Seq<char>) -> Option<nat> {
    match strip_prefix(value, "bytes "@) {
        None => None,
        Some(v) => match find_char(v, '/') {
            None => None,
            Some(i) => {
                let range = v.take(i as int);
                match find_char(range, '-') {
                    None => None,
                    Some(j) => parse_unsigned(trim(range.take(j as int)), u64::MAX as nat),
                }
            },
        },
    }
}

/// `Range` value asking for everything from `offset` on.
pub open spec fn open_range(offset: nat) -> Seq<char> {
    "bytes="@ + dec(offset) + "-"@
}

/// `Range` value of a seek to `new_pos`: up to the last byte where the
/// length is known and non-zero, open-ended otherwise.
pub open spec fn seek_range(new_pos: nat, content_length: Option<u64>) -> Seq<char> {
    match content_length {
        Some(cl) => if cl > 0 {
            "bytes="@ + dec(new_pos) + "-"@ + dec((cl - 1) as nat)
        } else {
            open_range(new_pos)
        },
        None => open_range(new_pos),
    }
}

/// The position a seek asks for, before any guard: `None` where the
/// request itself is invalid.
pub open spec fn seek_target(pos: int, content_length: Option<u64>, off: int, whence: int) -> Option<
    int,
> {
    if whence == SEEK_SET {
        if off < 0 {
            None
        } else {
            Some(off)
        }
    } else if whence == SEEK_CUR {
        if off < 0 && -off > pos {
            None
        } else {
            Some(pos + off)
        }
    } else if whence == SEEK_END {
        match content_length {
            None => None,
            Some(len) => if off > 0 || -off > len {
                None
            } else {
                Some(len + off)
            },
        }
    } else {
        None
    }
}

/// What a seek request comes to.
#[derive(Debug, Clone, Copy, PartialEq, Eq, Structural)]
pub enum SeekPlan {
    /// The request is refused: the result is -1.
    Fail,
    /// The target is at or past the end: the stream ends at this length.
    ClampToEnd(u64),
    /// The stream is at the target already.
    Stay(u64),
    /// The stream moves to this position.
    Move(u64),
}

/// The plan of a seek from `pos`: invalid requests and forward jumps of
/// more than [`MAX_SKIP`] fail, targets at or past a known end are clamped to
/// it, and a target equal to the position is kept.
pub open spec fn seek_plan(pos: u64, content_length: Option<u64>, off: i64, whence: i32) -> SeekPlan {
    match seek_target(pos as int, content_length, off as int, whence as int) {
        None => SeekPlan::Fail,
        Some(t) => if t > pos && t - pos > MAX_SKIP {
            SeekPlan::Fail
        } else if content_length is Some && t >= content_length->0 {
            SeekPlan::ClampToEnd(content_length->0)
        } else if t == pos {
            SeekPlan::Stay(pos)
        } else {
            SeekPlan::Move(t as u64)
        },
    }
}

/// How a move begins.
#[derive(Debug, Clone, Copy, PartialEq, Eq, Structural)]
pub enum SeekStart {
    /// Nothing to do.
    AtTarget,
    /// Discard this many buffered bytes; on failure, fall back to `Ranged`.
    Drain(usize),
    /// Ask the server for the bytes from the target on.
    Ranged,
}

/// How a move from `pos` to `new_pos` begins: forward moves within the
/// prefetch capacity drain the buffer, all others issue a ranged request.
pub open spec fn seek_start_spec(pos: u64, new_pos: u64) -> SeekStart {
    if new_pos == pos {
        SeekStart::AtTarget
    } else if new_pos > pos && new_pos - pos <= PREFETCH_CAP {
        SeekStart::Drain((new_pos - pos) as usize)
    } else {
        SeekStart::Ranged
    }
}

/// What becomes of a reply to the ranged request of a seek.
#[derive(Debug, Clone, Copy, PartialEq, Eq, Structural)]
pub enum RangedReply {
    /// A `206` starting at the target: read on from it.
    Accept,
    /// A `200` that ignored `Range`: discard this many bytes, then read on.
    SkipThenAccept(u64),
    /// The seek fails.
    Reject,
}

/// The judgement of a reply with `status` to a seek to `new_pos`.
pub open spec fn ranged_reply(status: u16, content_range: Option<Seq<char>>, new_pos: u64) -> RangedReply {
    if status == 206 {
        match content_range {
            Some(cr) => if range_start(cr) == Some(new_pos as nat) {
                RangedReply::Accept
            } else {
                RangedReply::Reject
            },
            None => RangedReply::Reject,
        }
    } else if 200 <= status <= 299 {
        if new_pos > UNRANGED_SKIP_LIMIT {
            RangedReply::Reject
        } else {
            RangedReply::SkipThenAccept(new_pos)
        }
    } else {
        RangedReply::Reject
    }
}

/// What a reader does next.
#[derive(Debug, Clone, Copy, PartialEq, Eq, Structural)]
pub enum ReaderStep {
    /// Wait `delay_ms`, then ask again for the bytes from `offset` on; this is
    /// attempt number `attempt`.
    Reconnect { attempt: u32, offset: u64, delay_ms: u64 },
    /// Stop reading: the stream has ended (or, after an error, failed).
    Finish,
}

/// After the body ended with `bytes_written` bytes delivered: an early end
/// of a body of known size is resumed while attempts remain, at the start
/// plus the bytes delivered (modulo 2^64, as the count itself).
pub open spec fn after_end_spec(start_offset: u64, bytes_written: u64, expected: Option<u64>, retries: u32) -> ReaderStep {
    let premature = match expected {
        Some(e) => bytes_written < e,
        None => false,
    };
    if premature && retries < MAX_RETRIES {
        ReaderStep::Reconnect {
            attempt: (retries + 1) as u32,
            offset: vstd::wrapping::u64_specs::wrapping_add(start_offset, bytes_written),
            delay_ms: (200 * (retries + 1)) as u64,
        }
    } else {
        ReaderStep::Finish
    }
}

/// After a read error: resumed while attempts remain.
pub open spec fn after_error_spec(start_offset: u64, bytes_written: u64, retries: u32) -> ReaderStep {
    if retries >= MAX_RETRIES {
        ReaderStep::Finish
    } else {
        ReaderStep::Reconnect {
            attempt: (retries + 1) as u32,
            offset: vstd::wrapping::u64_specs::wrapping_add(start_offset, bytes_written),
            delay_ms: (200 * (retries + 1)) as u64,
        }
    }
}

/// What a read of `n` bytes does with the buffer as it is.
#[derive(Debug, Clone, Copy, PartialEq, Eq, Structural)]
pub enum ReadStep {
    /// Copy this many bytes out of the buffer.
    Copy(usize),
    /// Return this without copying: 0 at the end, -1 on error.
    Return(i64),
    /// Wait for the reader and look again.
    Wait,
}

/// What a wait for `remaining` more discarded bytes does.
#[derive(Debug, Clone, Copy, PartialEq, Eq, Structural)]
pub enum DrainStep {
    /// All bytes are discarded.
    Done,
    /// The stream ended or failed first.
    Failed,
    /// Wait for this many more bytes.
    Wait(usize),
}

// ── The prefetch buffer ─────────────────────────────────────────────────────

/// The bytes a reader has fetched ahead of the player, and how the fetch
/// stands.
pub struct Prefetch {
    /// Fetched bytes not yet read, oldest first.
    pub data: VecDeque<u8>,
    /// Bytes the reader has put into `data` since it started (modulo 2^64).
    pub bytes_written: u64,
    /// The body has ended.
    pub eof: bool,
    /// The reader gave up after errors.
    pub error: bool,
    /// The stream is being closed or replaced: the reader must stop.
    pub stop: bool,
}

impl Prefetch {
    /// An empty buffer of a reader that has not started.
    pub fn new() -> (res: Prefetch)
        ensures
            res.data@ == Seq::<u8>::empty(),
            res.bytes_written == 0,
            !res.eof && !res.error && !res.stop,
    {
        Prefetch {
            data: VecDeque::with_capacity(PREFETCH_CAP + 65536),
            bytes_written: 0,
            eof: false,
            error: false,
            stop: false,
        }
    }

    /// Whether the reader must wait for room before it reads on: the buffer
    /// is full and nobody asked it to stop.
    pub fn reader_waits(&self) -> (res: bool)
        ensures
            res == (self.data@.len() >= PREFETCH_CAP && !self.stop),
    {
        self.data.len() >= PREFETCH_CAP && !self.stop
    }

    /// Appends a chunk the reader fetched, unless the reader was asked to
    /// stop; says whether it did.
    pub fn accept_chunk(&mut self, chunk: &[u8]) -> (res: bool)
        ensures
            res == !old(self).stop,
            res ==> final(self).data@ == old(self).data@ + chunk@,
            res ==> final(self).bytes_written as int == (if old(self).bytes_written + chunk@.len()
                > u64::MAX {
                old(self).bytes_written + chunk@.len() - 18446744073709551616
            } else {
                old(self).bytes_written + chunk@.len()
            }),
            !res ==> *final(self) == *old(self),
            final(self).eof == old(self).eof,
            final(self).error == old(self).error,
            final(self).stop == old(self).stop,
    {
        if self.stop {
            return false;
        }
        let mut i: usize = 0;
        let ghost start = self.data@;
        while i < chunk.len()
            invariant
                i <= chunk.len(),
                self.data@ == start + chunk@.take(i as int),
                start == old(self).data@,
                self.bytes_written == old(self).bytes_written,
                self.eof == old(self).eof,
                self.error == old(self).error,
                self.stop == old(self).stop,
            decreases chunk.len() - i,
        {
            self.data.push_back(chunk[i]);
            assert(chunk@.take(i + 1) =~= chunk@.take(i as int).push(chunk@[i as int]));
            i += 1;
        }
        assert(chunk@.take(chunk.len() as int) =~= chunk@);
        let n = chunk.len() as u64;
        self.bytes_written = self.bytes_written.wrapping_add(n);
        true
    }

    /// What a read of `n` bytes does now: copy what is there (up to `n`);
    /// with nothing buffered, return 0 at the end or on stop, -1 after an
    /// error, and wait otherwise.
    pub fn read_step(&self, n: usize) -> (res: ReadStep)
        ensures
            res == (if n == 0 {
                ReadStep::Return(0)
            } else if self.data@.len() > 0 {
                ReadStep::Copy(if n < self.data@.len() { n } else { self.data@.len() as usize })
            } else if self.eof {
                ReadStep::Return(0)
            } else if self.error {
                ReadStep::Return(-1i64)
            } else if self.stop {
                ReadStep::Return(0)
            } else {
                ReadStep::Wait
            }),
    {
        if n == 0 {
            ReadStep::Return(0)
        } else if self.data.len() > 0 {
            let len = self.data.len();
            ReadStep::Copy(if n < len { n } else { len })
        } else if self.eof {
            ReadStep::Return(0)
        } else if self.error {
            ReadStep::Return(-1)
        } else if self.stop {
            ReadStep::Return(0)
        } else {
            ReadStep::Wait
        }
    }

    /// Takes the `k` oldest bytes out of the buffer.
    pub fn take_front(&mut self, k: usize) -> (res: Vec<u8>)
        requires
            k <= old(self).data@.len(),
        ensures
            res@ == old(self).data@.take(k as int),
            final(self).data@ == old(self).data@.skip(k as int),
            old(self).data@ == res@ + final(self).data@,
            final(self).bytes_written == old(self).bytes_written,
            final(self).eof == old(self).eof,
            final(self).error == old(self).error,
            final(self).stop == old(self).stop,
    {
        let ghost start = self.data@;
        let mut out: Vec<u8> = Vec::new();
        let mut i: usize = 0;
        while i < k
            invariant
                i <= k <= start.len(),
                out@ == start.take(i as int),
                self.data@ == start.skip(i as int),
                self.bytes_written == old(self).bytes_written,
                self.eof == old(self).eof,
                self.error == old(self).error,
                self.stop == old(self).stop,
            decreases k - i,
        {
            match self.data.pop_front() {
                Some(b) => {
                    out.push(b);
                    assert(start.take(i + 1) =~= start.take(i as int).push(b));
                    assert(start.skip(i as int).subrange(1, start.skip(i as int).len() as int)
                        =~= start.skip(i + 1));
                },
                None => {
                    assert(false);
                },
            }
            i += 1;
        }
        assert(start =~= start.take(k as int) + start.skip(k as int));
        out
    }

    /// One step of discarding `remaining` bytes for a forward seek: discards
    /// what is there, and says whether all were discarded, the stream ended
    /// first, or how many are still owed.
    pub fn drain_step(&mut self, remaining: usize) -> (res: DrainStep)
        ensures
            remaining == 0 ==> res == DrainStep::Done && *final(self) == *old(self),
            remaining > 0 && old(self).data@.len() >= remaining ==> res == DrainStep::Done
                && final(self).data@ == old(self).data@.skip(remaining as int),
            remaining > old(self).data@.len() && (old(self).eof || old(self).error
                || old(self).stop) ==> res == DrainStep::Failed && final(self).data@ == old(
                self,
            ).data@,
            remaining > old(self).data@.len() && !(old(self).eof || old(self).error
                || old(self).stop) ==> res == DrainStep::Wait(
                (remaining - old(self).data@.len()) as usize,
            ) && final(self).data@ == Seq::<u8>::empty(),
            final(self).bytes_written == old(self).bytes_written,
            final(self).eof == old(self).eof,
            final(self).error == old(self).error,
            final(self).stop == old(self).stop,
    {
        if remaining == 0 {
            return DrainStep::Done;
        }
        let available = self.data.len();
        if available >= remaining {
            let _ = self.take_front(remaining);
            return DrainStep::Done;
        }
        if self.eof || self.error || self.stop {
            return DrainStep::Failed;
        }
        let _ = self.take_front(available);
        assert(self.data@ =~= Seq::<u8>::empty());
        DrainStep::Wait(remaining - available)
    }

    /// Ends the stream here: the reader stops and nothing more is read.
    pub fn mark_eof(&mut self)
        ensures
            final(self).stop && final(self).eof,
            final(self).data@ == Seq::<u8>::empty(),
            final(self).error == old(self).error,
            final(self).bytes_written == old(self).bytes_written,
    {
        self.stop = true;
        self.eof = true;
        self.data.clear();
    }
}

// ── Reading replies ─────────────────────────────────────────────────────────

/// The URL a stream opens: trimmed, without its fragment.
pub fn normalize_url(url: &str) -> (res: String)
    ensures
        res@ == normalized_url(url@),
{
    let t = trim_chars(&chars_of(url));
    let head = match find_char_exec(&t, '#') {
        Some(i) => slice_of(&t, 0, i),
        None => t,
    };
    string_of(&head)
}

/// The media type of a `Content-Type` value, lower-cased, without
/// parameters.
pub fn media_type_of(value: &str) -> (res: Option<String>)
    ensures
        opt_chars(res) == media_type(value@),
{
    let v = chars_of(value);
    let head = match find_char_exec(&v, ';') {
        Some(i) => slice_of(&v, 0, i),
        None => v,
    };
    let t = trim_chars(&head);
    if t.len() == 0 {
        None
    } else {
        Some(string_of(&lower_chars(&t)))
    }
}

/// The total length named by a `Content-Range` value.
pub fn content_range_total(value: &str) -> (res: Option<u64>)
    ensures
        res matches Some(t) ==> range_total(value@) == Some(t as nat),
        res is None ==> range_total(value@) is None,
{
    let parts = split_chars(&chars_of(value), '/');
    proof {
        lemma_split_nonempty(value@, '/');
    }
    let last = &parts[parts.len() - 1];
    assert(last@ == split(value@, '/').last());
    parse_unsigned_chars(&trim_chars(last), u64::MAX)
}

/// The first byte named by a `Content-Range` value `bytes S-E/T`.
pub fn content_range_start(value: &str) -> (res: Option<u64>)
    ensures
        res matches Some(t) ==> range_start(value@) == Some(t as nat),
        res is None ==> range_start(value@) is None,
{
    let v = chars_of(value);
    proof {
        reveal_strlit("bytes ");
    }
    let rest = match strip_prefix_chars(&v, &chars_of("bytes ")) {
        Some(r) => r,
        None => return None,
    };
    let i = match find_char_exec(&rest, '/') {
        Some(i) => i,
        None => return None,
    };
    let range = slice_of(&rest, 0, i);
    let j = match find_char_exec(&range, '-') {
        Some(j) => j,
        None => return None,
    };
    parse_unsigned_chars(&trim_chars(&slice_of(&range, 0, j)), u64::MAX)
}

/// The `Range` value asking for everything from `offset` on.
pub fn resume_range(offset: u64) -> (res: String)
    ensures
        res@ == open_range(offset as nat),
{
    let mut out = chars_of("bytes=");
    extend_chars(&mut out, &dec_chars(offset));
    extend_chars(&mut out, &chars_of("-"));
    string_of(&out)
}

/// The `Range` value of a seek to `new_pos`.
pub fn seek_range_header(new_pos: u64, content_length: Option<u64>) -> (res: String)
    ensures
        res@ == seek_range(new_pos as nat, content_length),
{
    match content_length {
        Some(cl) => {
            if cl > 0 {
                let mut out = chars_of("bytes=");
                extend_chars(&mut out, &dec_chars(new_pos));
                extend_chars(&mut out, &chars_of("-"));
                extend_chars(&mut out, &dec_chars(cl - 1));
                string_of(&out)
            } else {
                resume_range(new_pos)
            }
        },
        None => resume_range(new_pos),
    }
}

// ── Decisions ───────────────────────────────────────────────────────────────

/// The plan of a seek from `pos` by `off` relative to `whence`.
pub fn plan_seek(pos: u64, content_length: Option<u64>, off: i64, whence: i32) -> (res: SeekPlan)
    requires
        whence == SEEK_CUR && off >= 0 ==> pos + off <= u64::MAX,
    ensures
        res == seek_plan(pos, content_length, off, whence),
{
    let target: u64 = if whence == SEEK_SET {
        if off < 0 {
            return SeekPlan::Fail;
        }
        off as u64
    } else if whence == SEEK_CUR {
        if off < 0 {
            let abs_off: u64 = if off == i64::MIN {
                9223372036854775808
            } else {
                (-off) as u64
            };
            if abs_off > pos {
                return SeekPlan::Fail;
            }
            pos - abs_off
        } else {
            pos + off as u64
        }
    } else if whence == SEEK_END {
        let len = match content_length {
            Some(l) => l,
            None => return SeekPlan::Fail,
        };
        if off > 0 {
            return SeekPlan::Fail;
        }
        let abs_off: u64 = if off == i64::MIN {
            9223372036854775808
        } else {
            (-off) as u64
        };
        if abs_off > len {
            return SeekPlan::Fail;
        }
        len - abs_off
    } else {
        return SeekPlan::Fail;
    };
    if target > pos && target - pos > MAX_SKIP {
        return SeekPlan::Fail;
    }
    if let Some(cl) = content_length {
        if target >= cl {
            return SeekPlan::ClampToEnd(cl);
        }
    }
    if target == pos {
        SeekPlan::Stay(pos)
    } else {
        SeekPlan::Move(target)
    }
}

/// How a move from `pos` to `new_pos` begins.
pub fn seek_start(pos: u64, new_pos: u64) -> (res: SeekStart)
    ensures
        res == seek_start_spec(pos, new_pos),
{
    if new_pos == pos {
        SeekStart::AtTarget
    } else if new_pos > pos && new_pos - pos <= PREFETCH_CAP as u64 {
        SeekStart::Drain((new_pos - pos) as usize)
    } else {
        SeekStart::Ranged
    }
}

/// The wait before attempt `attempt` (from 0) of the ranged request of a
/// seek, in milliseconds.
pub fn seek_retry_delay_ms(attempt: u32) -> (res: u64)
    ensures
        res == 300 * attempt,
{
    300 * (attempt as u64)
}

/// What a reader does after its body ended with `bytes_written` bytes
/// delivered from `start_offset`, `expected` being the bytes the body was to
/// hold and `retries` the attempts made so far.
pub fn after_end(start_offset: u64, bytes_written: u64, expected: Option<u64>, retries: u32) -> (res:
    ReaderStep)
    ensures
        res == after_end_spec(start_offset, bytes_written, expected, retries),
{
    let premature = match expected {
        Some(e) => bytes_written < e,
        None => false,
    };
    if premature && retries < MAX_RETRIES {
        let attempt = retries + 1;
        ReaderStep::Reconnect {
            attempt,
            offset: start_offset.wrapping_add(bytes_written),
            delay_ms: 200 * (attempt as u64),
        }
    } else {
        ReaderStep::Finish
    }
}

/// What a reader does after a read error, `retries` attempts having been
/// made so far.
pub fn after_error(start_offset: u64, bytes_written: u64, retries: u32) -> (res: ReaderStep)
    ensures
        res == after_error_spec(start_offset, bytes_written, retries),
{
    if retries >= MAX_RETRIES {
        ReaderStep::Finish
    } else {
        let attempt = retries + 1;
        ReaderStep::Reconnect {
            attempt,
            offset: start_offset.wrapping_add(bytes_written),
            delay_ms: 200 * (attempt as u64),
        }
    }
}

/// The bytes of a `len`-byte content type copied into a buffer of `n`
/// bytes, which keeps one byte for the terminating NUL.
pub fn content_type_copy_len(len: usize, n: usize) -> (res: usize)
    ensures
        n == 0 ==> res == 0,
        n > 0 ==> res == if len < n - 1 { len } else { (n - 1) as usize },
{
    let room = if n > 0 { n - 1 } else { 0 };
    if len < room { len } else { room }
}

// ── Stream state ────────────────────────────────────────────────────────────

/// The length a stream knows after a reply: a known length stays, an unknown
/// one is taken from the reply's `Content-Range` total.
pub open spec fn length_after_range(current: Option<u64>, content_range: Option<Seq<char>>) -> Option<u64> {
    match current {
        Some(c) => Some(c),
        None => match content_range {
            Some(cr) => match range_total(cr) {
                Some(t) => Some(t as u64),
                None => None,
            },
            None => None,
        },
    }
}

/// The content type a stream knows after a reply: a known type stays, an
/// unknown one is taken from the reply's `Content-Type`.
pub open spec fn type_after_reply(current: Option<Seq<char>>, header: Option<Seq<char>>) -> Option<Seq<char>> {
    match current {
        Some(c) => Some(c),
        None => match header {
            Some(h) => media_type(h),
            None => None,
        },
    }
}

/// What a stream knows of itself besides its buffered bytes.
pub struct StreamInfo {
    pub url: String,
    /// The position of the next byte handed to the player.
    pub pos: u64,
    pub content_length: Option<u64>,
    pub content_type: Option<String>,
}

impl StreamInfo {
    /// The stream opened by the first reply to `url`: none unless its status
    /// is a success.
    pub fn from_reply(url: String, status: u16, content_length: Option<u64>, content_type: Option<&str>) -> (res: Option<StreamInfo>)
        ensures
            res is Some <==> 200 <= status <= 299,
            res matches Some(info) ==> {
                &&& info.url@ == url@
                &&& info.pos == 0
                &&& info.content_length == content_length
                &&& opt_chars(info.content_type) == type_after_reply(None, opt_str_chars(content_type))
            },
    {
        if !(200 <= status && status <= 299) {
            return None;
        }
        let ct = match content_type {
            Some(h) => media_type_of(h),
            None => None,
        };
        Some(StreamInfo { url, pos: 0, content_length, content_type: ct })
    }

    /// Starts a seek: plans it and, where it runs past the end, puts the
    /// stream at its end.
    pub fn begin_seek(&mut self, off: i64, whence: i32) -> (res: SeekPlan)
        requires
            whence == SEEK_CUR && off >= 0 ==> old(self).pos + off <= u64::MAX,
        ensures
            res == seek_plan(old(self).pos, old(self).content_length, off, whence),
            final(self).pos == (match res {
                SeekPlan::ClampToEnd(cl) => cl,
                _ => old(self).pos,
            }),
            final(self).url == old(self).url,
            final(self).content_length == old(self).content_length,
            final(self).content_type == old(self).content_type,
    {
        let plan = plan_seek(self.pos, self.content_length, off, whence);
        if let SeekPlan::ClampToEnd(cl) = plan {
            self.pos = cl;
        }
        plan
    }

    /// Takes in the reply to the ranged request of a seek to `new_pos`:
    /// learns the length and type it gives where they were unknown, and
    /// judges it. An accepted `206` moves the stream to `new_pos`.
    pub fn take_ranged_reply(
        &mut self,
        new_pos: u64,
        status: u16,
        content_range: Option<&str>,
        reply_length: Option<u64>,
        reply_type: Option<&str>,
    ) -> (res: RangedReply)
        ensures
            res == ranged_reply(status, opt_str_chars(content_range), new_pos),
            final(self).url == old(self).url,
            status == 206 ==> {
                &&& final(self).content_length == length_after_range(
                    old(self).content_length,
                    opt_str_chars(content_range),
                )
                &&& opt_chars(final(self).content_type) == type_after_reply(
                    opt_chars(old(self).content_type),
                    opt_str_chars(reply_type),
                )
            },
            res is SkipThenAccept ==> {
                &&& final(self).content_length == (match old(self).content_length {
                    Some(c) => Some(c),
                    None => reply_length,
                })
                &&& opt_chars(final(self).content_type) == type_after_reply(
                    opt_chars(old(self).content_type),
                    opt_str_chars(reply_type),
                )
            },
            status != 206 && !(res is SkipThenAccept) ==> {
                &&& final(self).content_length == old(self).content_length
                &&& final(self).content_type == old(self).content_type
            },
            final(self).pos == (if res is Accept {
                new_pos
            } else {
                old(self).pos
            }),
    {
        if status == 206 {
            if self.content_length.is_none() {
                if let Some(cr) = content_range {
                    self.content_length = content_range_total(cr);
                }
            }
            if self.content_type.is_none() {
                if let Some(h) = reply_type {
                    self.content_type = media_type_of(h);
                }
            }
            let start = match content_range {
                Some(cr) => content_range_start(cr),
                None => None,
            };
            match start {
                Some(s) => {
                    if s == new_pos {
                        self.pos = new_pos;
                        return RangedReply::Accept;
                    }
                },
                None => {},
            }
            RangedReply::Reject
        } else if 200 <= status && status <= 299 {
            if new_pos > UNRANGED_SKIP_LIMIT {
                return RangedReply::Reject;
            }
            if self.content_length.is_none() {
                self.content_length = reply_length;
            }
            if self.content_type.is_none() {
                if let Some(h) = reply_type {
                    self.content_type = media_type_of(h);
                }
            }
            RangedReply::SkipThenAccept(new_pos)
        } else {
            RangedReply::Reject
        }
    }

    /// The bytes a body read from `offset` is to hold, where the length is
    /// known (none past the end).
    pub fn expected_from(&self, offset: u64) -> (res: Option<u64>)
        ensures
            res == (match self.content_length {
                Some(cl) => Some(if cl >= offset { (cl - offset) as u64 } else { 0u64 }),
                None => None,
            }),
    {
        match self.content_length {
            Some(cl) => Some(cl.saturating_sub(offset)),
            None => None,
        }
    }
}

// ── The reader ──────────────────────────────────────────────────────────────

/// The most bytes a reader reads from the body at once.
pub const READ_CHUNK: usize = 65536;

/// What one read of the body gave.
pub enum ReadResult {
    /// These bytes (never empty).
    Data(Vec<u8>),
    /// The body ended.
    End,
    /// The read failed.
    Failed,
}

/// A read result as plain values.
pub enum ReadModel {
    Data(Seq<u8>),
    End,
    Failed,
}

pub open spec fn read_view(r: ReadResult) -> ReadModel {
    match r {
        ReadResult::Data(c) => ReadModel::Data(c@),
        ReadResult::End => ReadModel::End,
        ReadResult::Failed => ReadModel::Failed,
    }
}

/// What a reader does after a read.
#[derive(Debug, Clone, Copy, PartialEq, Eq, Structural)]
pub enum ReaderAction {
    /// Wait for room in the buffer, then read on.
    ReadMore,
    /// Wait `delay_ms`, then ask for the bytes from `offset` on and read on.
    Reconnect { offset: u64, delay_ms: u64 },
    /// Stop reading.
    Stop,
}

/// The prefetch buffer as plain values.
pub struct PrefetchModel {
    pub data: Seq<u8>,
    pub written: u64,
    pub eof: bool,
    pub error: bool,
    pub stop: bool,
}

pub open spec fn pf_model(pf: Prefetch) -> PrefetchModel {
    PrefetchModel {
        data: pf.data@,
        written: pf.bytes_written,
        eof: pf.eof,
        error: pf.error,
        stop: pf.stop,
    }
}

/// `x + n`, modulo 2^64 (for `n` below 2^64).
pub open spec fn add_mod_2_64(x: u64, n: nat) -> u64 {
    if x + n > u64::MAX {
        (x + n - 0x1_0000_0000_0000_0000) as u64
    } else {
        (x + n) as u64
    }
}

/// One step of a reader that started at `start` and was to deliver
/// `expected` bytes, with `retries` attempts made since its last chunk:
/// a chunk is appended (and the attempts reset) unless the reader was asked
/// to stop; an end or an error reconnects at `start` plus the bytes
/// delivered while attempts remain (an end only when it came early), and
/// otherwise marks the end or the failure and stops.
pub open spec fn reader_next(
    m: PrefetchModel,
    retries: u32,
    start: u64,
    expected: Option<u64>,
    r: ReadModel,
) -> (PrefetchModel, u32, ReaderAction) {
    match r {
        ReadModel::Data(c) => if m.stop {
            (m, retries, ReaderAction::Stop)
        } else {
            (
                PrefetchModel { data: m.data + c, written: add_mod_2_64(m.written, c.len()), ..m },
                0u32,
                ReaderAction::ReadMore,
            )
        },
        ReadModel::End => match after_end_spec(start, m.written, expected, retries) {
            ReaderStep::Reconnect { attempt, offset, delay_ms } => (
                m,
                attempt,
                ReaderAction::Reconnect { offset, delay_ms },
            ),
            ReaderStep::Finish => (PrefetchModel { eof: true, ..m }, retries, ReaderAction::Stop),
        },
        ReadModel::Failed => match after_error_spec(start, m.written, retries) {
            ReaderStep::Reconnect { attempt, offset, delay_ms } => (
                m,
                attempt,
                ReaderAction::Reconnect { offset, delay_ms },
            ),
            ReaderStep::Finish => (PrefetchModel { error: true, ..m }, retries, ReaderAction::Stop),
        },
    }
}

/// One step of a reader ([`reader_next`]).
pub fn after_read(
    pf: &mut Prefetch,
    retries: &mut u32,
    start_offset: u64,
    expected: Option<u64>,
    result: ReadResult,
) -> (res: ReaderAction)
    ensures
        (pf_model(*final(pf)), *final(retries), res) == reader_next(
            pf_model(*old(pf)),
            *old(retries),
            start_offset,
            expected,
            read_view(result),
        ),
{
    let ghost r = read_view(result);
    match result {
        ReadResult::Data(c) => {
            if pf.accept_chunk(&c) {
                *retries = 0;
                ReaderAction::ReadMore
            } else {
                ReaderAction::Stop
            }
        },
        ReadResult::End => match after_end(start_offset, pf.bytes_written, expected, *retries) {
            ReaderStep::Reconnect { attempt, offset, delay_ms } => {
                *retries = attempt;
                ReaderAction::Reconnect { offset, delay_ms }
            },
            ReaderStep::Finish => {
                pf.eof = true;
                ReaderAction::Stop
            },
        },
        ReadResult::Failed => match after_error(start_offset, pf.bytes_written, *retries) {
            ReaderStep::Reconnect { attempt, offset, delay_ms } => {
                *retries = attempt;
                ReaderAction::Reconnect { offset, delay_ms }
            },
            ReaderStep::Finish => {
                pf.error = true;
                ReaderAction::Stop
            },
        },
    }
}

/// The buffer stays within [`PREFETCH_CAP`] plus one chunk: the reader reads
/// only while the buffer has room or it was asked to stop (see
/// [`Prefetch::reader_waits`]), a read gives at most [`READ_CHUNK`] bytes,
/// and the player's reads only take bytes out.
pub proof fn law_reader_buffer_bounded(
    m: PrefetchModel,
    retries: u32,
    start: u64,
    expected: Option<u64>,
    r: ReadModel,
)
    requires
        m.data.len() <= PREFETCH_CAP + READ_CHUNK,
        r matches ReadModel::Data(c) ==> c.len() <= READ_CHUNK && (m.data.len() < PREFETCH_CAP || m.stop)
            && m.written + c.len() <= u64::MAX,
    ensures
        reader_next(m, retries, start, expected, r).0.data.len() <= PREFETCH_CAP + READ_CHUNK,
{
}

/// The buffer holds the resource from the reader's start in order, with
/// no gap and no repeat: where what the player took and what is buffered
/// are the resource's bytes from `start` on, up to the bytes delivered, and
/// the server sends the bytes asked for, they still are after a step; and a
/// reconnect asks for the bytes right after the last delivered one.
pub proof fn law_reader_delivers_the_resource(
    resource: Seq<u8>,
    taken: Seq<u8>,
    m: PrefetchModel,
    retries: u32,
    start: u64,
    expected: Option<u64>,
    r: ReadModel,
)
    requires
        start + m.written <= resource.len(),
        start + m.written <= u64::MAX,
        taken + m.data == resource.subrange(start as int, start + m.written),
        r matches ReadModel::Data(c) ==> {
            &&& start + m.written + c.len() <= resource.len()
            &&& m.written + c.len() <= u64::MAX
            &&& c == resource.subrange(start + m.written, start + m.written + c.len())
        },
    ensures
        ({
            let (n, _, a) = reader_next(m, retries, start, expected, r);
            &&& taken + n.data == resource.subrange(start as int, start + n.written)
            &&& a matches ReaderAction::Reconnect { offset, .. } ==> offset == start + m.written
                && n.written == m.written
        }),
{
    if let ReadModel::Data(c) = r {
        if !m.stop {
            let a = resource.subrange(start as int, start + m.written);
            assert(taken + (m.data + c) =~= (taken + m.data) + c);
            assert(a + c =~= resource.subrange(start as int, start + m.written + c.len()));
        }
    }
}

/// The player's reads keep the order: taking the oldest `k` buffered bytes
/// (see [`Prefetch::take_front`]) moves them from the buffer to what was
/// taken, so taken and buffered bytes together stay the same.
pub proof fn law_reads_keep_the_resource(taken: Seq<u8>, data: Seq<u8>, k: int)
    requires
        0 <= k <= data.len(),
    ensures
        (taken + data.take(k)) + data.skip(k) == taken + data,
{
    assert((taken + data.take(k)) + data.skip(k) =~= taken + data);
}

/// Once the reader is asked to stop, nothing more is appended.
pub proof fn law_nothing_appended_after_stop(
    m: PrefetchModel,
    retries: u32,
    start: u64,
    expected: Option<u64>,
    r: ReadModel,
)
    requires
        m.stop,
    ensures
        reader_next(m, retries, start, expected, r).0.data == m.data,
        reader_next(m, retries, start, expected, r).0.written == m.written,
{
}

/// The reader gives up after [`MAX_RETRIES`] attempts: an error then marks
/// the failure, and an early end marks the end, and it stops; before that
/// both reconnect, the n-th time after 200·n ms.
pub proof fn law_reader_gives_up_after_max_retries(
    m: PrefetchModel,
    retries: u32,
    start: u64,
    expected: Option<u64>,
    r: ReadModel,
)
    requires
        start + m.written <= u64::MAX,
        r is Failed || r is End,
    ensures
        ({
            let (n, rt, a) = reader_next(m, retries, start, expected, r);
            let early = expected matches Some(e) && m.written < e;
            &&& (r is Failed && retries >= MAX_RETRIES) ==> a == ReaderAction::Stop && n.error
            &&& (r is End && (retries >= MAX_RETRIES || !early)) ==> a == ReaderAction::Stop && n.eof
            &&& ((r is Failed || early) && retries < MAX_RETRIES) ==> rt == retries + 1
                && a == (ReaderAction::Reconnect {
                offset: (start + m.written) as u64,
                delay_ms: (200 * (retries + 1)) as u64,
            })
        }),
{
}

// ── A whole run of the reader ───────────────────────────────────────────────

/// What happens next to a running reader: a read of the body, the player
/// taking up to `k` of the oldest buffered bytes, or the stream being closed.
pub enum ReaderEvent {
    Read(ReadModel),
    Take(nat),
    StopRequest,
}

/// A reader as plain values: its buffer, its attempts since the last chunk,
/// what the player has taken, whether its loop has exited, and the last
/// action it took.
pub struct ReaderRun {
    pub pf: PrefetchModel,
    pub retries: u32,
    pub taken: Seq<u8>,
    pub exited: bool,
    pub last: Option<ReaderAction>,
}

/// A reader just started: nothing buffered, taken or attempted.
pub open spec fn reader_started() -> ReaderRun {
    ReaderRun {
        pf: PrefetchModel {
            data: Seq::<u8>::empty(),
            written: 0,
            eof: false,
            error: false,
            stop: false,
        },
        retries: 0,
        taken: Seq::<u8>::empty(),
        exited: false,
        last: None,
    }
}

/// One event of a run: a read is a [`reader_next`] step unless the loop has
/// exited; the player takes what is there, up to `k`; a close sets `stop`.
pub open spec fn run_step(s: ReaderRun, start: u64, expected: Option<u64>, e: ReaderEvent) -> ReaderRun {
    match e {
        ReaderEvent::Read(r) => if s.exited {
            s
        } else {
            let (n, rt, a) = reader_next(s.pf, s.retries, start, expected, r);
            ReaderRun { pf: n, retries: rt, exited: a == ReaderAction::Stop, last: Some(a), ..s }
        },
        ReaderEvent::Take(k) => {
            let j = if k <= s.pf.data.len() { k as int } else { s.pf.data.len() as int };
            ReaderRun {
                pf: PrefetchModel { data: s.pf.data.skip(j), ..s.pf },
                taken: s.taken + s.pf.data.take(j),
                ..s
            }
        },
        ReaderEvent::StopRequest => ReaderRun { pf: PrefetchModel { stop: true, ..s.pf }, ..s },
    }
}

/// The reader after the events, in order.
pub open spec fn run_events(s: ReaderRun, start: u64, expected: Option<u64>, events: Seq<ReaderEvent>) -> ReaderRun
    decreases events.len(),
{
    if events.len() == 0 {
        s
    } else {
        run_step(run_events(s, start, expected, events.drop_last()), start, expected, events.last())
    }
}

/// An event that the reader's loop and the server allow in state `s`: the
/// loop reads only while the buffer has room or it was asked to stop, one
/// read gives at most [`READ_CHUNK`] bytes, and the server sends the
/// resource's bytes from the offset asked for.
pub open spec fn event_allowed(s: ReaderRun, start: u64, resource: Seq<u8>, e: ReaderEvent) -> bool {
    match e {
        ReaderEvent::Read(ReadModel::Data(c)) => {
            &&& c.len() <= READ_CHUNK
            &&& (s.pf.data.len() < PREFETCH_CAP || s.pf.stop)
            &&& start + s.pf.written + c.len() <= resource.len()
            &&& c == resource.subrange(start + s.pf.written, start + s.pf.written + c.len())
        },
        _ => true,
    }
}

/// Every event of the run is allowed in the state it meets.
pub open spec fn run_allowed(
    s: ReaderRun,
    start: u64,
    expected: Option<u64>,
    resource: Seq<u8>,
    events: Seq<ReaderEvent>,
) -> bool
    decreases events.len(),
{
    if events.len() == 0 {
        true
    } else {
        &&& run_allowed(s, start, expected, resource, events.drop_last())
        &&& event_allowed(run_events(s, start, expected, events.drop_last()), start, resource, events.last())
    }
}

/// The number of reads that failed at the end of the run, one after the
/// other.
pub open spec fn trailing_failures(events: Seq<ReaderEvent>) -> nat
    decreases events.len(),
{
    if events.len() > 0 && events.last() matches ReaderEvent::Read(ReadModel::Failed) {
        trailing_failures(events.drop_last()) + 1
    } else {
        0
    }
}

proof fn lemma_run_invariant(start: u64, expected: Option<u64>, resource: Seq<u8>, events: Seq<ReaderEvent>)
    requires
        resource.len() <= u64::MAX,
        start <= resource.len(),
        run_allowed(reader_started(), start, expected, resource, events),
    ensures
        ({
            let r = run_events(reader_started(), start, expected, events);
            &&& r.pf.data.len() <= PREFETCH_CAP + READ_CHUNK
            &&& start + r.pf.written <= resource.len()
            &&& r.taken + r.pf.data == resource.subrange(start as int, start + r.pf.written)
            &&& r.last matches Some(ReaderAction::Reconnect { offset, .. }) ==> offset == start + r.pf.written
        }),
    decreases events.len(),
{
    if events.len() == 0 {
        assert(resource.subrange(start as int, start as int) =~= Seq::<u8>::empty());
        assert(Seq::<u8>::empty() + Seq::<u8>::empty() =~= Seq::<u8>::empty());
    } else {
        let pre = events.drop_last();
        lemma_run_invariant(start, expected, resource, pre);
        let s = run_events(reader_started(), start, expected, pre);
        let e = events.last();
        match e {
            ReaderEvent::Read(r) => {
                if !s.exited {
                    law_reader_buffer_bounded(s.pf, s.retries, start, expected, r);
                    law_reader_delivers_the_resource(resource, s.taken, s.pf, s.retries, start, expected, r);
                }
            },
            ReaderEvent::Take(k) => {
                let j = if k <= s.pf.data.len() { k as int } else { s.pf.data.len() as int };
                law_reads_keep_the_resource(s.taken, s.pf.data, j);
            },
            ReaderEvent::StopRequest => {},
        }
    }
}

proof fn lemma_run_after_stop(s: ReaderRun, start: u64, expected: Option<u64>, events: Seq<ReaderEvent>)
    requires
        s.pf.stop,
    ensures
        ({
            let r = run_events(s, start, expected, events);
            &&& r.pf.stop
            &&& r.pf.written == s.pf.written
            &&& r.taken + r.pf.data == s.taken + s.pf.data
        }),
    decreases events.len(),
{
    if events.len() > 0 {
        let pre = events.drop_last();
        lemma_run_after_stop(s, start, expected, pre);
        let q = run_events(s, start, expected, pre);
        match events.last() {
            ReaderEvent::Read(r) => {
                if !q.exited {
                    law_nothing_appended_after_stop(q.pf, q.retries, start, expected, r);
                }
            },
            ReaderEvent::Take(k) => {
                let j = if k <= q.pf.data.len() { k as int } else { q.pf.data.len() as int };
                law_reads_keep_the_resource(q.taken, q.pf.data, j);
            },
            ReaderEvent::StopRequest => {},
        }
    }
}

proof fn lemma_run_failures(s: ReaderRun, start: u64, expected: Option<u64>, events: Seq<ReaderEvent>)
    requires
        !s.exited,
        trailing_failures(events) == events.len(),
    ensures
        ({
            let r = run_events(s, start, expected, events);
            ||| r.exited && r.pf.error
            ||| !r.exited && r.retries == s.retries + events.len()
        }),
    decreases events.len(),
{
    if events.len() > 0 {
        let pre = events.drop_last();
        assert(trailing_failures(pre) == pre.len());
        lemma_run_failures(s, start, expected, pre);
    }
}

proof fn lemma_run_split(s: ReaderRun, start: u64, expected: Option<u64>, a: Seq<ReaderEvent>, b: Seq<ReaderEvent>)
    ensures
        run_events(s, start, expected, a + b) == run_events(run_events(s, start, expected, a), start, expected, b),
    decreases b.len(),
{
    if b.len() == 0 {
        assert(a + b =~= a);
    } else {
        lemma_run_split(s, start, expected, a, b.drop_last());
        assert((a + b).drop_last() =~= a + b.drop_last());
        assert((a + b).last() == b.last());
    }
}

proof fn lemma_trailing_failures_split(events: Seq<ReaderEvent>, k: nat)
    requires
        k <= trailing_failures(events),
    ensures
        k <= events.len(),
        trailing_failures(events.skip(events.len() - k)) == k,
        events =~= events.take(events.len() - k) + events.skip(events.len() - k),
    decreases k,
{
    if k > 0 {
        let pre = events.drop_last();
        lemma_trailing_failures_split(pre, (k - 1) as nat);
        let t = events.skip(events.len() - k);
        assert(t.drop_last() =~= pre.skip(pre.len() - (k - 1)));
        assert(t.last() == events.last());
    } else {
        assert(events.skip(events.len() as int).len() == 0);
    }
}

/// Over a whole run of a reader started at `start` (every event allowed by
/// the loop and the server, see [`event_allowed`]): the buffer never holds
/// more than [`PREFETCH_CAP`] plus one chunk; what the player took and what
/// is buffered are the resource from `start` on, up to the bytes delivered,
/// with no gap and no repeat; the last reconnect asked for the bytes right
/// after the last delivered one; and once more than [`MAX_RETRIES`] reads
/// in a row have failed, the loop has exited with the error flag set (or
/// had exited already before them).
pub proof fn law_reader_run(start: u64, expected: Option<u64>, resource: Seq<u8>, events: Seq<ReaderEvent>)
    requires
        resource.len() <= u64::MAX,
        start <= resource.len(),
        run_allowed(reader_started(), start, expected, resource, events),
    ensures
        ({
            let r = run_events(reader_started(), start, expected, events);
            let k = trailing_failures(events);
            &&& r.pf.data.len() <= PREFETCH_CAP + READ_CHUNK
            &&& r.taken + r.pf.data == resource.subrange(start as int, start + r.pf.written)
            &&& r.last matches Some(ReaderAction::Reconnect { offset, .. }) ==> offset == start + r.pf.written
            &&& k > MAX_RETRIES ==> r.exited && (r.pf.error || run_events(
                reader_started(),
                start,
                expected,
                events.take(events.len() - k),
            ).exited)
        }),
{
    lemma_run_invariant(start, expected, resource, events);
    let k = trailing_failures(events);
    if k > MAX_RETRIES {
        lemma_trailing_failures_split(events, k);
        let a = events.take(events.len() - k);
        let b = events.skip(events.len() - k);
        lemma_run_split(reader_started(), start, expected, a, b);
        let p = run_events(reader_started(), start, expected, a);
        if !p.exited {
            lemma_run_failures(p, start, expected, b);
        } else {
            lemma_run_exited(p, start, expected, b);
        }
    }
}

proof fn lemma_run_exited(s: ReaderRun, start: u64, expected: Option<u64>, events: Seq<ReaderEvent>)
    requires
        s.exited,
    ensures
        run_events(s, start, expected, events).exited,
    decreases events.len(),
{
    if events.len() > 0 {
        lemma_run_exited(s, start, expected, events.drop_last());
    }
}

/// Once the stream is closed, nothing more reaches the buffer: after any
/// further events the delivered count is the same, and what was taken and
/// what is buffered together are unchanged.
pub proof fn law_reader_run_after_stop(s: ReaderRun, start: u64, expected: Option<u64>, events: Seq<ReaderEvent>)
    requires
        s.pf.stop,
    ensures
        ({
            let r = run_events(s, start, expected, events);
            &&& r.pf.written == s.pf.written
            &&& r.taken + r.pf.data == s.taken + s.pf.data
        }),
{
    lemma_run_after_stop(s, start, expected, events);
}

// ── Laws ────────────────────────────────────────────────────────────────────

/// A seek never leaves the stream: a move lands before a known end and at
/// most [`MAX_SKIP`] bytes ahead; a target at or past a known end lands on
/// the end; a target already reached keeps the position.
pub proof fn law_seek_stays_in_stream(pos: u64, content_length: Option<u64>, off: i64, whence: i32)
    requires
        whence == SEEK_CUR && off >= 0 ==> pos + off <= u64::MAX,
    ensures
        match seek_plan(pos, content_length, off, whence) {
            SeekPlan::Move(t) => {
                &&& t != pos
                &&& (content_length matches Some(cl) ==> t < cl)
                &&& (t > pos ==> t - pos <= MAX_SKIP)
            },
            SeekPlan::ClampToEnd(c) => content_length == Some(c),
            SeekPlan::Stay(p) => p == pos,
            SeekPlan::Fail => true,
        },
{
}

/// A seek aims where its `whence` says: `SEEK_SET` at `off`, `SEEK_CUR` at
/// `pos + off` (backward for a negative `off`), `SEEK_END` at the known
/// length plus `off`. Aimed inside the stream (not before 0, not past the
/// end for `SEEK_END`), it moves there, stays where that is `pos`, ends at
/// a known end at or before the target, and fails only for a jump forward
/// of more than [`MAX_SKIP`] bytes; aimed anywhere else, or with any other
/// `whence`, it fails.
pub proof fn law_seek_lands_where_asked(pos: u64, content_length: Option<u64>, off: i64, whence: i32)
    ensures
        ({
            let target: int = if whence == SEEK_SET {
                off as int
            } else if whence == SEEK_CUR {
                pos + off
            } else {
                match content_length {
                    Some(len) => len + off,
                    None => -1,
                }
            };
            let aimed = if whence == SEEK_SET {
                off >= 0
            } else if whence == SEEK_CUR {
                pos + off >= 0
            } else if whence == SEEK_END {
                content_length is Some && off <= 0 && target >= 0
            } else {
                false
            };
            &&& aimed ==> seek_plan(pos, content_length, off, whence) == (if target > pos && target - pos
                > MAX_SKIP {
                SeekPlan::Fail
            } else if content_length is Some && target >= content_length->0 {
                SeekPlan::ClampToEnd(content_length->0)
            } else if target == pos {
                SeekPlan::Stay(pos)
            } else {
                SeekPlan::Move(target as u64)
            })
            &&& !aimed ==> seek_plan(pos, content_length, off, whence) == SeekPlan::Fail
        }),
{
}

/// Asking for the current position (`SEEK_CUR` by 0) keeps it, unless the
/// stream is at or past its known end, where it lands on the end.
pub proof fn law_seek_cur_zero_keeps_position(pos: u64, content_length: Option<u64>)
    ensures
        seek_plan(pos, content_length, 0, SEEK_CUR) == match content_length {
            Some(cl) => if pos >= cl {
                SeekPlan::ClampToEnd(cl)
            } else {
                SeekPlan::Stay(pos)
            },
            None => SeekPlan::Stay(pos),
        },
{
}

/// Absolute seeks within a known length are exact: to any byte before the
/// end, within [`MAX_SKIP`] ahead, a seek goes there or stays there.
pub proof fn law_seek_set_within_stream(pos: u64, cl: u64, target: u64)
    requires
        target < cl,
        target <= i64::MAX,
        target <= pos || target - pos <= MAX_SKIP,
    ensures
        seek_plan(pos, Some(cl), target as i64, SEEK_SET) == if target == pos {
            SeekPlan::Stay(pos)
        } else {
            SeekPlan::Move(target)
        },
{
}

} // verus!
