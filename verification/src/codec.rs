//! Byte and number encodings: hexadecimal, percent-encoding and decimal.
use vstd::prelude::*;
use vstd::utf8::*;

use crate::text::char_from_ascii;

verus! {

// ── Hexadecimal ─────────────────────────────────────────────────────────────

/// The hexadecimal digit for a nibble (`0..16`), lower case.
pub open spec fn hex_digit_lower(n: u8) -> char {
    if n < 10 {
        ((n as u32) + 48) as char
    } else {
        ((n as u32) + 87) as char
    }
}

/// The hexadecimal digit for a nibble (`0..16`), upper case.
pub open spec fn hex_digit_upper(n: u8) -> char {
    if n < 10 {
        ((n as u32) + 48) as char
    } else {
        ((n as u32) + 55) as char
    }
}

/// Two lower-case hex digits per byte, high nibble first.
pub open spec fn hex_lower(b: Seq<u8>) -> Seq<char>
    decreases b.len(),
{
    if b.len() == 0 {
        Seq::<char>::empty()
    } else {
        seq![hex_digit_lower(b[0] / 16), hex_digit_lower(b[0] % 16)] + hex_lower(
            b.drop_first(),
        )
    }
}

/// The value of an ASCII hexadecimal digit (either case): `char::to_digit(16)`.
pub open spec fn hex_value(c: char) -> Option<u8> {
    if '0' <= c && c <= '9' {
        Some(((c as u32) - 48) as u8)
    } else if 'a' <= c && c <= 'f' {
        Some(((c as u32) - 87) as u8)
    } else if 'A' <= c && c <= 'F' {
        Some(((c as u32) - 55) as u8)
    } else {
        None
    }
}

/// `hex_value` on a byte read as a character.
pub open spec fn hex_byte_value(b: u8) -> Option<u8> {
    hex_value(b as char)
}

// ── Percent-encoding ────────────────────────────────────────────────────────

/// The bytes left as they are by percent-encoding: ASCII letters, digits and
/// `- _ . ~`, plus `/` where `keep_slash` holds.
pub open spec fn is_unreserved(b: u8, keep_slash: bool) -> bool {
    ||| (65 <= b && b <= 90)
    ||| (97 <= b && b <= 122)
    ||| (48 <= b && b <= 57)
    ||| b == 45 || b == 95 || b == 46 || b == 126
    ||| (keep_slash && b == 47)
}

/// Percent-encoding of a byte string: every byte outside the unreserved set
/// becomes `%` followed by two hex digits (upper or lower case).
pub open spec fn pct_encode(b: Seq<u8>, upper_hex: bool, keep_slash: bool) -> Seq<char>
    decreases b.len(),
{
    if b.len() == 0 {
        Seq::<char>::empty()
    } else {
        let head = if is_unreserved(b[0], keep_slash) {
            seq![b[0] as char]
        } else if upper_hex {
            seq!['%', hex_digit_upper(b[0] / 16), hex_digit_upper(b[0] % 16)]
        } else {
            seq!['%', hex_digit_lower(b[0] / 16), hex_digit_lower(b[0] % 16)]
        };
        head + pct_encode(b.drop_first(), upper_hex, keep_slash)
    }
}

/// Percent-decoding of a byte string: `%` followed by two hex digits is the
/// byte they spell; every other byte stands for itself.
pub open spec fn pct_decode(b: Seq<u8>) -> Seq<u8>
    decreases b.len(),
{
    if b.len() == 0 {
        Seq::<u8>::empty()
    } else if b[0] == 37 && b.len() >= 3 && hex_byte_value(b[1]) is Some && hex_byte_value(b[2]) is Some {
        seq![(hex_byte_value(b[1])->0 * 16 + hex_byte_value(b[2])->0) as u8] + pct_decode(b.skip(3))
    } else {
        seq![b[0]] + pct_decode(b.drop_first())
    }
}

/// `String::from_utf8_lossy`: the characters that a byte string decodes to,
/// with malformed sequences replaced by U+FFFD.
pub uninterp spec fn utf8_lossy(b: Seq<u8>) -> Seq<char>;

// ── Decimal ─────────────────────────────────────────────────────────────────

/// The decimal digit for `0..10`.
pub open spec fn dec_digit(n: nat) -> char {
    ((n + 48) as u32) as char
}

/// The decimal representation of `n` (`format!("{}", n)`).
pub open spec fn dec(n: nat) -> Seq<char>
    decreases n,
{
    if n < 10 {
        seq![dec_digit(n)]
    } else {
        dec(n / 10).push(dec_digit(n % 10))
    }
}

/// Whether `c` is an ASCII decimal digit.
pub open spec fn is_dec_digit(c: char) -> bool {
    '0' <= c && c <= '9'
}

/// The number spelled by a string of decimal digits.
pub open spec fn dec_value(s: Seq<char>) -> nat
    decreases s.len(),
{
    if s.len() == 0 {
        0
    } else {
        dec_value(s.drop_last()) * 10 + ((s.last() as u32) - 48) as nat
    }
}

/// Whether every character of `s` is a decimal digit.
pub open spec fn all_dec_digits(s: Seq<char>) -> bool {
    forall|i: int| 0 <= i < s.len() ==> is_dec_digit(#[trigger] s[i])
}

/// `s` without one leading `+`.
pub open spec fn unsigned_digits(s: Seq<char>) -> Seq<char> {
    if s.len() > 0 && s[0] == '+' {
        s.drop_first()
    } else {
        s
    }
}

/// `str::parse` into an unsigned integer no larger than `max`: an optional
/// `+`, then one or more decimal digits spelling a value `<= max`.
pub open spec fn parse_unsigned(s: Seq<char>, max: nat) -> Option<nat> {
    let digits = unsigned_digits(s);
    if digits.len() > 0 && all_dec_digits(digits) && dec_value(digits) <= max {
        Some(dec_value(digits))
    } else {
        None
    }
}

// ── Lemmas ──────────────────────────────────────────────────────────────────

/// Hex-encoding one more byte appends its two digits.
pub proof fn lemma_hex_lower_push(b: Seq<u8>, x: u8)
    ensures
        hex_lower(b.push(x)) == hex_lower(b) + seq![hex_digit_lower(x / 16), hex_digit_lower(x % 16)],
    decreases b.len(),
{
    if b.len() == 0 {
        assert(b.push(x).drop_first() =~= Seq::<u8>::empty());
        assert(hex_lower(Seq::<u8>::empty()) =~= Seq::<char>::empty());
        assert(hex_lower(b) =~= Seq::<char>::empty());
        assert(hex_lower(b.push(x)) =~= seq![hex_digit_lower(x / 16), hex_digit_lower(x % 16)]
            + hex_lower(Seq::<u8>::empty()));
    } else {
        lemma_hex_lower_push(b.drop_first(), x);
        assert(b.push(x).drop_first() =~= b.drop_first().push(x));
        assert(hex_lower(b.push(x)) =~= hex_lower(b) + seq![
            hex_digit_lower(x / 16),
            hex_digit_lower(x % 16),
        ]);
    }
}

/// Hex-encoding doubles the length.
pub proof fn lemma_hex_lower_len(b: Seq<u8>)
    ensures
        hex_lower(b).len() == 2 * b.len(),
    decreases b.len(),
{
    if b.len() > 0 {
        lemma_hex_lower_len(b.drop_first());
    }
}

/// Percent-encoding one more byte appends its encoding.
pub proof fn lemma_pct_encode_push(b: Seq<u8>, x: u8, upper_hex: bool, keep_slash: bool)
    ensures
        pct_encode(b.push(x), upper_hex, keep_slash) == pct_encode(b, upper_hex, keep_slash)
            + pct_encode(seq![x], upper_hex, keep_slash),
    decreases b.len(),
{
    if b.len() == 0 {
        assert(b.push(x) =~= seq![x]);
        assert(pct_encode(b, upper_hex, keep_slash) =~= Seq::<char>::empty());
        assert(pct_encode(b.push(x), upper_hex, keep_slash) =~= Seq::<char>::empty() + pct_encode(
            seq![x],
            upper_hex,
            keep_slash,
        ));
    } else {
        lemma_pct_encode_push(b.drop_first(), x, upper_hex, keep_slash);
        assert(b.push(x).drop_first() =~= b.drop_first().push(x));
        assert(b.push(x)[0] == b[0]);
        let head = pct_encode(b, upper_hex, keep_slash).subrange(
            0,
            pct_encode(b, upper_hex, keep_slash).len() - pct_encode(
                b.drop_first(),
                upper_hex,
                keep_slash,
            ).len(),
        );
        assert(pct_encode(b.push(x), upper_hex, keep_slash) =~= pct_encode(
            b,
            upper_hex,
            keep_slash,
        ) + pct_encode(seq![x], upper_hex, keep_slash));
    }
}

// ── Exec ────────────────────────────────────────────────────────────────────

/// The lower-case hex digit for a nibble.
pub fn hex_digit_lower_exec(n: u8) -> (c: char)
    requires
        n < 16,
    ensures
        c == hex_digit_lower(n),
{
    if n < 10 {
        char_from_ascii(n + 48)
    } else {
        char_from_ascii(n + 87)
    }
}

/// The upper-case hex digit for a nibble.
pub fn hex_digit_upper_exec(n: u8) -> (c: char)
    requires
        n < 16,
    ensures
        c == hex_digit_upper(n),
{
    if n < 10 {
        char_from_ascii(n + 48)
    } else {
        char_from_ascii(n + 55)
    }
}

/// Lower-case hexadecimal rendering of `bytes`, two digits per byte.
pub fn lower_hex(bytes: &[u8]) -> (res: Vec<char>)
    ensures
        res@ == hex_lower(bytes@),
{
    let mut res: Vec<char> = Vec::new();
    let mut i: usize = 0;
    while i < bytes.len()
        invariant
            i <= bytes.len(),
            res@ == hex_lower(bytes@.take(i as int)),
        decreases bytes.len() - i,
    {
        let b = bytes[i];
        let hi = hex_digit_lower_exec(b / 16);
        let lo = hex_digit_lower_exec(b % 16);
        proof {
            lemma_hex_lower_push(bytes@.take(i as int), b);
            assert(bytes@.take(i + 1) =~= bytes@.take(i as int).push(b));
        }
        res.push(hi);
        res.push(lo);
        assert(res@ =~= hex_lower(bytes@.take(i as int)) + seq![hi, lo]);
        i += 1;
    }
    assert(bytes@.take(bytes.len() as int) =~= bytes@);
    res
}

/// `char::to_digit(16)` on an ASCII byte.
pub fn hex_byte_value_exec(b: u8) -> (res: Option<u8>)
    ensures
        res == hex_byte_value(b),
{
    if 48 <= b && b <= 57 {
        Some(b - 48)
    } else if 97 <= b && b <= 102 {
        Some(b - 87)
    } else if 65 <= b && b <= 70 {
        Some(b - 55)
    } else {
        None
    }
}

/// Whether a byte is left unescaped by percent-encoding.
pub fn is_unreserved_exec(b: u8, keep_slash: bool) -> (res: bool)
    ensures
        res == is_unreserved(b, keep_slash),
{
    (65 <= b && b <= 90) || (97 <= b && b <= 122) || (48 <= b && b <= 57) || b == 45 || b == 95
        || b == 46 || b == 126 || (keep_slash && b == 47)
}

/// Percent-encodes `bytes` (see [`pct_encode`]).
pub fn pct_encode_bytes(bytes: &[u8], upper_hex: bool, keep_slash: bool) -> (res: Vec<char>)
    ensures
        res@ == pct_encode(bytes@, upper_hex, keep_slash),
{
    let mut res: Vec<char> = Vec::new();
    let mut i: usize = 0;
    while i < bytes.len()
        invariant
            i <= bytes.len(),
            res@ == pct_encode(bytes@.take(i as int), upper_hex, keep_slash),
        decreases bytes.len() - i,
    {
        let b = bytes[i];
        let ghost before = res@;
        proof {
            lemma_pct_encode_push(bytes@.take(i as int), b, upper_hex, keep_slash);
            assert(bytes@.take(i + 1) =~= bytes@.take(i as int).push(b));
            assert(seq![b].drop_first() =~= Seq::<u8>::empty());
            assert(pct_encode(Seq::<u8>::empty(), upper_hex, keep_slash) =~= Seq::<char>::empty());
        }
        if is_unreserved_exec(b, keep_slash) {
            res.push(char_from_ascii_any(b));
            assert(pct_encode(seq![b], upper_hex, keep_slash) =~= seq![b as char]);
        } else if upper_hex {
            res.push('%');
            res.push(hex_digit_upper_exec(b / 16));
            res.push(hex_digit_upper_exec(b % 16));
            assert(pct_encode(seq![b], upper_hex, keep_slash) =~= seq![
                '%',
                hex_digit_upper(b / 16),
                hex_digit_upper(b % 16),
            ]);
        } else {
            res.push('%');
            res.push(hex_digit_lower_exec(b / 16));
            res.push(hex_digit_lower_exec(b % 16));
            assert(pct_encode(seq![b], upper_hex, keep_slash) =~= seq![
                '%',
                hex_digit_lower(b / 16),
                hex_digit_lower(b % 16),
            ]);
        }
        assert(res@ =~= before + pct_encode(seq![b], upper_hex, keep_slash));
        i += 1;
    }
    assert(bytes@.take(bytes.len() as int) =~= bytes@);
    res
}

/// The character with code `b` (`b as char`).
pub fn char_from_ascii_any(b: u8) -> (c: char)
    ensures
        c == b as char,
{
    b as char
}

/// Percent-decodes `bytes` (see [`pct_decode`]).
pub fn pct_decode_bytes(bytes: &[u8]) -> (res: Vec<u8>)
    ensures
        res@ == pct_decode(bytes@),
{
    let mut res: Vec<u8> = Vec::new();
    let mut i: usize = 0;
    assert(bytes@.skip(0) =~= bytes@);
    while i < bytes.len()
        invariant
            i <= bytes.len(),
            pct_decode(bytes@) == res@ + pct_decode(bytes@.skip(i as int)),
        decreases bytes.len() - i,
    {
        let ghost rest = bytes@.skip(i as int);
        if bytes[i] == 37 && bytes.len() - i > 2 {
            let hi = hex_byte_value_exec(bytes[i + 1]);
            let lo = hex_byte_value_exec(bytes[i + 2]);
            if hi.is_some() && lo.is_some() {
                let h = hi.unwrap();
                let l = lo.unwrap();
                assert(rest.skip(3) =~= bytes@.skip(i + 3));
                assert(rest[1] == bytes@[i + 1] && rest[2] == bytes@[i + 2]);
                res.push(h * 16 + l);
                i += 3;
                continue;
            }
        }
        assert(rest.drop_first() =~= bytes@.skip(i + 1));
        res.push(bytes[i]);
        i += 1;
    }
    assert(bytes@.skip(bytes.len() as int) =~= Seq::<u8>::empty());
    res
}

/// The decimal digits of `n`.
pub fn dec_chars(n: u64) -> (res: Vec<char>)
    ensures
        res@ == dec(n as nat),
    decreases n,
{
    let d = char_from_ascii((n % 10) as u8 + 48);
    if n < 10 {
        let mut v: Vec<char> = Vec::new();
        v.push(d);
        assert(v@ =~= seq![dec_digit(n as nat)]);
        v
    } else {
        let mut v = dec_chars(n / 10);
        v.push(d);
        v
    }
}

proof fn lemma_dec_value_push(s: Seq<char>, c: char)
    ensures
        dec_value(s.push(c)) == dec_value(s) * 10 + ((c as u32) - 48) as nat,
{
    assert(s.push(c).drop_last() =~= s);
}

/// `str::parse` into an unsigned integer no larger than `max` (see
/// [`parse_unsigned`]).
pub fn parse_unsigned_chars(s: &[char], max: u64) -> (res: Option<u64>)
    ensures
        res matches Some(v) ==> parse_unsigned(s@, max as nat) == Some(v as nat),
        res is None ==> parse_unsigned(s@, max as nat) is None,
{
    let start: usize = if s.len() > 0 && s[0] == '+' {
        1
    } else {
        0
    };
    let ghost digits = unsigned_digits(s@);
    assert(digits =~= s@.skip(start as int));
    if start >= s.len() {
        return None;
    }
    let mut acc: u64 = 0;
    let mut i = start;
    while i < s.len()
        invariant
            start <= i <= s.len(),
            digits =~= s@.skip(start as int),
            digits == unsigned_digits(s@),
            acc as nat == dec_value(s@.subrange(start as int, i as int)),
            acc <= max,
            forall|j: int| start <= j < i ==> is_dec_digit(#[trigger] s@[j]),
        decreases s.len() - i,
    {
        let c = s[i];
        if !('0' <= c && c <= '9') {
            assert(digits[i - start] == s@[i as int]);
            assert(!is_dec_digit(digits[i - start]));
            assert(!all_dec_digits(digits));
            return None;
        }
        proof {
            lemma_dec_value_push(s@.subrange(start as int, i as int), c);
            assert(s@.subrange(start as int, i + 1) =~= s@.subrange(start as int, i as int).push(c));
        }
        let d = (c as u32 - 48) as u64;
        if acc > max / 10 || d > max - acc * 10 {
            proof {
                if acc > max / 10 {
                    assert(acc * 10 + d > max) by (nonlinear_arith)
                        requires
                            acc > max / 10,
                    ;
                }
                if all_dec_digits(digits) {
                    lemma_dec_value_monotone(digits, (i + 1 - start) as int);
                    assert(digits.take((i + 1 - start) as int) =~= s@.subrange(start as int, i + 1));
                }
            }
            return None;
        }
        acc = acc * 10 + d;
        i += 1;
    }
    assert(s@.subrange(start as int, s.len() as int) =~= digits);
    Some(acc)
}

proof fn lemma_dec_value_monotone(s: Seq<char>, k: int)
    requires
        0 <= k <= s.len(),
        forall|i: int| 0 <= i < s.len() ==> is_dec_digit(#[trigger] s[i]),
    ensures
        dec_value(s.take(k)) <= dec_value(s),
    decreases s.len() - k,
{
    if k < s.len() {
        lemma_dec_value_monotone(s.drop_last(), if k <= s.len() - 1 { k } else { s.len() - 1 });
        assert(s.drop_last().take(k) =~= s.take(k));
        assert(s.take(s.len() as int) =~= s);
    } else {
        assert(s.take(k) =~= s);
    }
}

} // verus!
