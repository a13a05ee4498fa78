//! AWS Signature Version 4 verification for the S3 endpoint.
use vstd::prelude::*;
use vstd::utf8::decode_utf8;
use vstd::utf8::encode_utf8;
use vstd::utf8::valid_utf8;

use crate::codec::hex_lower;
use crate::codec::pct_decode;
use crate::codec::pct_encode;
use crate::codec::pct_encode_bytes;
use crate::codec::utf8_lossy;
use crate::ordered::map_put;
use crate::ordered::map_put_exec;
use crate::ordered::pairs_view;
use crate::ordered::sort_pairs;
use crate::ordered::sort_pairs_exec;
use crate::outside::from_utf8_lossy;
use crate::outside::hex_encode;
use crate::outside::naive_utc_parse;
use crate::outside::parse_naive_utc;
use crate::outside::percent_decode_str;
use crate::outside::sha256;
use crate::outside::sha256_of;
use crate::outside::utc_now;
use crate::text::after_first;
use crate::text::before_first;
use crate::text::extend_chars;
use crate::text::find_char;
use crate::text::find_char_exec;
use crate::text::upper;
use crate::text::upper_chars;
use crate::outside::hmac_sha256;
use crate::outside::hmac_sha256_of;
use crate::text::chars_eq;
use crate::text::starts_with;
use crate::text::chars_of;
use crate::text::join;
use crate::text::join_chars;
use crate::text::lemma_split_nonempty;
use crate::text::lower;
use crate::text::lower_chars;
use crate::text::slice_of;
use crate::text::split;
use crate::text::split_chars;
use crate::text::string_of;
use crate::text::strip_prefix;
use crate::text::strip_prefix_chars;
use crate::text::trim;
use crate::text::trim_chars;
use crate::text::trim_start;
use crate::text::trim_start_chars;

verus! {

/// Why a request's signature was refused.
#[derive(Debug)]
pub enum SigV4Error {
    Missing(&'static str),
    Malformed(&'static str),
    AccessKeyMismatch,
    ScopeMismatch,
    SignatureMismatch,
    SkewTooLarge,
    UnsupportedPayload,
}

/// The human-readable description of an error (its `Display` text).
pub open spec fn error_message(e: SigV4Error) -> Seq<char> {
    match e {
        SigV4Error::Missing(h) => "missing header: "@ + h@,
        SigV4Error::Malformed(w) => "malformed: "@ + w@,
        SigV4Error::AccessKeyMismatch => "access key id does not match"@,
        SigV4Error::ScopeMismatch => "credential scope does not match"@,
        SigV4Error::SignatureMismatch => "signature mismatch"@,
        SigV4Error::SkewTooLarge => "request timestamp skew too large"@,
        SigV4Error::UnsupportedPayload => "STREAMING-AWS4-HMAC-SHA256-PAYLOAD not supported"@,
    }
}

impl SigV4Error {
    /// The human-readable description of the error.
    pub fn message(&self) -> (res: String)
        ensures
            res@ == error_message(*self),
    {
        match self {
            SigV4Error::Missing(h) => {
                let mut cs = chars_of("missing header: ");
                extend_chars(&mut cs, &chars_of(h));
                string_of(&cs)
            },
            SigV4Error::Malformed(w) => {
                let mut cs = chars_of("malformed: ");
                extend_chars(&mut cs, &chars_of(w));
                string_of(&cs)
            },
            SigV4Error::AccessKeyMismatch => string_of(&chars_of("access key id does not match")),
            SigV4Error::ScopeMismatch => string_of(&chars_of("credential scope does not match")),
            SigV4Error::SignatureMismatch => string_of(&chars_of("signature mismatch")),
            SigV4Error::SkewTooLarge => string_of(&chars_of("request timestamp skew too large")),
            SigV4Error::UnsupportedPayload => string_of(
                &chars_of("STREAMING-AWS4-HMAC-SHA256-PAYLOAD not supported"),
            ),
        }
    }
}

/// The credential scope named by an `Authorization` header.
pub struct Credential {
    pub access_key: String,
    pub date: String,
    pub region: String,
    pub service: String,
    pub terminator: String,
}

/// The three parts of an `Authorization: AWS4-HMAC-SHA256 …` header.
pub struct ParsedAuth {
    pub credential: Credential,
    pub signed_headers: Vec<String>,
    pub signature: String,
}

/// One request header: its lower-case name and, where its bytes are visible
/// ASCII text, its value.
pub struct Header {
    pub name: String,
    pub value: Option<String>,
}

/// What a signature check is given.
pub struct AuthInput<'a> {
    pub method: &'a str,
    pub path: &'a str,
    pub query: &'a str,
    pub headers: &'a [Header],
    pub body_sha256_hex: &'a str,
    pub access_key: &'a str,
    pub secret_key: &'a str,
    pub region: &'a str,
}

/// The model of a [`Credential`].
pub struct CredentialSpec {
    pub access_key: Seq<char>,
    pub date: Seq<char>,
    pub region: Seq<char>,
    pub service: Seq<char>,
    pub terminator: Seq<char>,
}

/// The parts of an `Authorization` header seen so far while scanning it.
pub struct AuthScan {
    pub credential: Option<CredentialSpec>,
    pub signed_headers: Option<Seq<Seq<char>>>,
    pub signature: Option<Seq<char>>,
}

impl Credential {
    /// The credential as plain values.
    pub open spec fn view(&self) -> CredentialSpec {
        CredentialSpec {
            access_key: self.access_key@,
            date: self.date@,
            region: self.region@,
            service: self.service@,
            terminator: self.terminator@,
        }
    }
}

/// The credential spelled by the value of `Credential=`: five `/`-separated
/// fields, the last of which keeps any further `/`.
pub open spec fn credential_of(v: Seq<char>) -> Option<CredentialSpec> {
    let pcs = split(v, '/');
    if pcs.len() < 5 {
        None
    } else {
        Some(
            CredentialSpec {
                access_key: pcs[0],
                date: pcs[1],
                region: pcs[2],
                service: pcs[3],
                terminator: join(pcs.skip(4), seq!['/']),
            },
        )
    }
}

/// The header names listed by `SignedHeaders=`: split on `;`, trimmed and
/// lower-cased.
pub open spec fn signed_header_names(v: Seq<char>) -> Seq<Seq<char>> {
    split(v, ';').map_values(|h: Seq<char>| lower(trim(h)))
}

/// One comma-separated part of the header applied to the scan so far.
pub open spec fn auth_step(st: AuthScan, part: Seq<char>) -> Result<AuthScan, SigV4Error> {
    let p = trim(part);
    if let Some(v) = strip_prefix(p, "Credential="@) {
        match credential_of(v) {
            None => Err(SigV4Error::Malformed("credential")),
            Some(c) => Ok(AuthScan { credential: Some(c), ..st }),
        }
    } else if let Some(v) = strip_prefix(p, "SignedHeaders="@) {
        Ok(AuthScan { signed_headers: Some(signed_header_names(v)), ..st })
    } else if let Some(v) = strip_prefix(p, "Signature="@) {
        Ok(AuthScan { signature: Some(trim(v)), ..st })
    } else {
        Ok(st)
    }
}

/// The scan of all the parts, left to right, stopping at the first error.
pub open spec fn auth_scan(parts: Seq<Seq<char>>) -> Result<AuthScan, SigV4Error>
    decreases parts.len(),
{
    if parts.len() == 0 {
        Ok(AuthScan { credential: None, signed_headers: None, signature: None })
    } else {
        match auth_scan(parts.drop_last()) {
            Err(e) => Err(e),
            Ok(st) => auth_step(st, parts.last()),
        }
    }
}

/// What `parse_authorization` makes of a header value: the credential, the
/// signed header names and the signature, or the first error met.
pub open spec fn parse_authorization_spec(auth: Seq<char>) -> Result<
    (CredentialSpec, Seq<Seq<char>>, Seq<char>),
    SigV4Error,
> {
    match strip_prefix(auth, "AWS4-HMAC-SHA256"@) {
        None => Err(SigV4Error::Malformed("scheme")),
        Some(rest) => match auth_scan(split(trim_start(rest), ',')) {
            Err(e) => Err(e),
            Ok(st) => if st.credential is None {
                Err(SigV4Error::Malformed("Credential"))
            } else if st.signed_headers is None {
                Err(SigV4Error::Malformed("SignedHeaders"))
            } else if st.signature is None {
                Err(SigV4Error::Malformed("Signature"))
            } else {
                Ok((st.credential->0, st.signed_headers->0, st.signature->0))
            },
        },
    }
}

/// Whether a character is a space or a tab.
pub open spec fn is_blank(c: char) -> bool {
    c == ' ' || c == '\t'
}

/// Runs of spaces and tabs replaced by a single space.
pub open spec fn collapse(s: Seq<char>) -> Seq<char>
    decreases s.len(),
{
    if s.len() == 0 {
        Seq::<char>::empty()
    } else {
        let r = collapse(s.drop_last());
        if is_blank(s.last()) {
            if s.len() >= 2 && is_blank(s[s.len() - 2]) {
                r
            } else {
                r.push(' ')
            }
        } else {
            r.push(s.last())
        }
    }
}

/// The bytes of a string.
pub open spec fn bytes(s: Seq<char>) -> Seq<u8> {
    encode_utf8(s)
}

/// The SigV4 signing key: HMAC chained over `"AWS4" + secret`, the date,
/// the region, the service and `"aws4_request"`.
pub open spec fn signing_key(
    secret: Seq<char>,
    date: Seq<char>,
    region: Seq<char>,
    service: Seq<char>,
) -> Seq<u8> {
    let k_date = hmac_sha256_of(bytes("AWS4"@ + secret), bytes(date));
    let k_region = hmac_sha256_of(k_date, bytes(region));
    let k_service = hmac_sha256_of(k_region, bytes(service));
    hmac_sha256_of(k_service, bytes("aws4_request"@))
}

/// The value of the first header called `name`, if it is readable text.
pub open spec fn header_value(hs: Seq<Header>, name: Seq<char>) -> Option<Seq<char>>
    decreases hs.len(),
{
    if hs.len() == 0 {
        None
    } else if hs[0].name@ == name {
        match hs[0].value {
            Some(v) => Some(v@),
            None => None,
        }
    } else {
        header_value(hs.drop_first(), name)
    }
}

/// The signed headers that are present, as a map sorted by name whose values
/// are trimmed with runs of blanks collapsed.
pub open spec fn header_entries(hs: Seq<Header>, names: Seq<Seq<char>>) -> Seq<
    (Seq<char>, Seq<char>),
>
    decreases names.len(),
{
    if names.len() == 0 {
        Seq::<(Seq<char>, Seq<char>)>::empty()
    } else {
        let m = header_entries(hs, names.drop_last());
        match header_value(hs, names.last()) {
            Some(v) => map_put(m, names.last(), collapse(trim(v))),
            None => m,
        }
    }
}

/// `name:value\n` for every entry, in order.
pub open spec fn header_lines(m: Seq<(Seq<char>, Seq<char>)>) -> Seq<char>
    decreases m.len(),
{
    if m.len() == 0 {
        Seq::<char>::empty()
    } else {
        header_lines(m.drop_last()) + m.last().0 + seq![':'] + m.last().1 + seq!['\n']
    }
}

/// `s` without its trailing newlines.
pub open spec fn trim_newlines(s: Seq<char>) -> Seq<char>
    decreases s.len(),
{
    if s.len() > 0 && s.last() == '\n' {
        trim_newlines(s.drop_last())
    } else {
        s
    }
}

/// The canonical header block and the `;`-joined names of the headers in it.
pub open spec fn canonical_headers_spec(hs: Seq<Header>, names: Seq<Seq<char>>) -> (
    Seq<char>,
    Seq<char>,
) {
    let m = header_entries(hs, names);
    (trim_newlines(header_lines(m)), join(m.map_values(|e: (Seq<char>, Seq<char>)| e.0), seq![';']))
}

/// A query component percent-decoded and read as UTF-8: the decoded text
/// where the bytes are valid UTF-8, else the lossy reading.
pub open spec fn decode_component(x: Seq<char>) -> Seq<char> {
    let b = pct_decode(bytes(x));
    if valid_utf8(b) {
        decode_utf8(b)
    } else {
        utf8_lossy(b)
    }
}

/// A query component in SigV4 encoding: everything but `A-Z a-z 0-9 - _ . ~`
/// escaped with upper-case hex.
pub open spec fn encode_component(x: Seq<char>) -> Seq<char> {
    pct_encode(bytes(x), true, false)
}

/// The decoded name and value of one `name=value` query part.
pub open spec fn query_pair(p: Seq<char>) -> (Seq<char>, Seq<char>) {
    (
        decode_component(before_first(p, '=')),
        decode_component(
            match after_first(p, '=') {
                Some(v) => v,
                None => Seq::<char>::empty(),
            },
        ),
    )
}

/// The decoded pairs of the non-empty `&`-separated parts, in order.
pub open spec fn query_pairs(parts: Seq<Seq<char>>) -> Seq<(Seq<char>, Seq<char>)>
    decreases parts.len(),
{
    if parts.len() == 0 {
        Seq::<(Seq<char>, Seq<char>)>::empty()
    } else if parts.last().len() == 0 {
        query_pairs(parts.drop_last())
    } else {
        query_pairs(parts.drop_last()).push(query_pair(parts.last()))
    }
}

/// `name=value` in SigV4 encoding.
pub open spec fn render_pair(p: (Seq<char>, Seq<char>)) -> Seq<char> {
    encode_component(p.0) + seq!['='] + encode_component(p.1)
}

/// The canonical query string: the decoded pairs sorted by name then value,
/// re-encoded and joined with `&`.
pub open spec fn canonical_query_spec(q: Seq<char>) -> Seq<char> {
    if q.len() == 0 {
        Seq::<char>::empty()
    } else {
        join(sort_pairs(query_pairs(split(q, '&'))).map_values(|p: (Seq<char>, Seq<char>)| render_pair(p)), seq!['&'])
    }
}

/// Whether a request stamped at `ts` seconds and `ts_ns` nanoseconds lies
/// more than 900 whole seconds (truncated toward zero) from `now`.
pub open spec fn skew_too_large(now_s: int, now_ns: int, ts_s: int, ts_ns: int) -> bool {
    let d = (now_s - ts_s) * 1_000_000_000 + (now_ns - ts_ns);
    let secs = if d >= 0 {
        d / 1_000_000_000
    } else {
        -((-d) / 1_000_000_000)
    };
    secs > 900 || secs < -900
}

/// The payload hash that goes into the canonical request, or `None` when the
/// client's claimed hash does not match the body.
pub open spec fn payload_hash(content_sha: Seq<char>, body_hex: Seq<char>) -> Option<Seq<char>> {
    if content_sha.len() == 0 || content_sha == "UNSIGNED-PAYLOAD"@ {
        Some("UNSIGNED-PAYLOAD"@)
    } else if content_sha == body_hex {
        Some(content_sha)
    } else {
        None
    }
}

/// The SigV4 canonical request.
pub open spec fn canonical_request(
    method: Seq<char>,
    path: Seq<char>,
    query: Seq<char>,
    headers: Seq<char>,
    names: Seq<char>,
    payload: Seq<char>,
) -> Seq<char> {
    upper(method) + seq!['\n'] + pct_encode(bytes(path), true, true) + seq!['\n']
        + canonical_query_spec(query) + seq!['\n'] + headers + seq!['\n'] + seq!['\n'] + names
        + seq!['\n'] + payload
}

/// `date/region/service/terminator`.
pub open spec fn credential_scope(c: CredentialSpec) -> Seq<char> {
    c.date + seq!['/'] + c.region + seq!['/'] + c.service + seq!['/'] + c.terminator
}

/// The SigV4 string to sign.
pub open spec fn string_to_sign(amz_date: Seq<char>, scope: Seq<char>, creq: Seq<char>) -> Seq<char> {
    "AWS4-HMAC-SHA256"@ + seq!['\n'] + amz_date + seq!['\n'] + scope + seq!['\n'] + hex_lower(
        sha256_of(bytes(creq)),
    )
}

/// The signature a client holding `secret` computes for the request.
pub open spec fn expected_signature(
    secret: Seq<char>,
    c: CredentialSpec,
    amz_date: Seq<char>,
    creq: Seq<char>,
) -> Seq<char> {
    hex_lower(
        hmac_sha256_of(
            signing_key(secret, c.date, c.region, c.service),
            bytes(string_to_sign(amz_date, credential_scope(c), creq)),
        ),
    )
}

/// The outcome of checking a request's signature at time `now`.
pub open spec fn verify_spec(input: AuthInput, now_s: int, now_ns: int) -> Result<(), SigV4Error> {
    let hs = input.headers@;
    match header_value(hs, "authorization"@) {
        None => Err(SigV4Error::Missing("Authorization")),
        Some(auth) => match header_value(hs, "x-amz-date"@) {
            None => Err(SigV4Error::Missing("x-amz-date")),
            Some(amz_date) => {
                let content_sha = match header_value(hs, "x-amz-content-sha256"@) {
                    Some(v) => v,
                    None => Seq::<char>::empty(),
                };
                if "STREAMING-AWS4-HMAC-SHA256-PAYLOAD"@.is_prefix_of(content_sha) {
                    Err(SigV4Error::UnsupportedPayload)
                } else {
                    match parse_authorization_spec(auth) {
                        Err(e) => Err(e),
                        Ok((c, signed, sig)) => if c.access_key != input.access_key@ {
                            Err(SigV4Error::AccessKeyMismatch)
                        } else if c.region != input.region@ || c.service != "s3"@ || c.terminator
                            != "aws4_request"@ {
                            Err(SigV4Error::ScopeMismatch)
                        } else if !c.date.is_prefix_of(amz_date) {
                            Err(SigV4Error::ScopeMismatch)
                        } else if (match naive_utc_parse(amz_date, "%Y%m%dT%H%M%SZ"@) {
                            Some(t) => skew_too_large(now_s, now_ns, t.0, t.1),
                            None => false,
                        }) {
                            Err(SigV4Error::SkewTooLarge)
                        } else {
                            match payload_hash(content_sha, input.body_sha256_hex@) {
                                None => Err(SigV4Error::SignatureMismatch),
                                Some(ph) => {
                                    let (ch, names) = canonical_headers_spec(hs, signed);
                                    if names != join(signed, seq![';']) {
                                        Err(SigV4Error::Malformed("signed headers"))
                                    } else {
                                        let creq = canonical_request(
                                            input.method@,
                                            input.path@,
                                            input.query@,
                                            ch,
                                            names,
                                            ph,
                                        );
                                        if bytes(expected_signature(input.secret_key@, c, amz_date, creq))
                                            == bytes(sig) {
                                            Ok(())
                                        } else {
                                            Err(SigV4Error::SignatureMismatch)
                                        }
                                    }
                                },
                            }
                        },
                    }
                }
            },
        },
    }
}

// ── Lemmas ──────────────────────────────────────────────────────────────────

proof fn lemma_auth_scan_push(parts: Seq<Seq<char>>, p: Seq<char>)
    ensures
        auth_scan(parts.push(p)) == match auth_scan(parts) {
            Err(e) => Err(e),
            Ok(st) => auth_step(st, p),
        },
{
    assert(parts.push(p).drop_last() =~= parts);
}

proof fn lemma_auth_scan_err(parts: Seq<Seq<char>>, k: int)
    requires
        0 <= k <= parts.len(),
        auth_scan(parts.take(k)) is Err,
    ensures
        auth_scan(parts) == auth_scan(parts.take(k)),
    decreases parts.len() - k,
{
    if k == parts.len() {
        assert(parts.take(k) =~= parts);
    } else {
        assert(parts.drop_last().take(k) =~= parts.take(k));
        lemma_auth_scan_err(parts.drop_last(), k);
    }
}

// ── Exec ────────────────────────────────────────────────────────────────────

/// Collapses every run of spaces and tabs in `s` into one space.
pub fn collapse_ws(s: &str) -> (res: String)
    ensures
        res@ == collapse(s@),
{
    let cs = chars_of(s);
    let mut out: Vec<char> = Vec::new();
    let mut in_ws = false;
    let mut i: usize = 0;
    while i < cs.len()
        invariant
            i <= cs.len(),
            out@ == collapse(cs@.take(i as int)),
            in_ws == (i > 0 && is_blank(cs@[i - 1])),
        decreases cs.len() - i,
    {
        let c = cs[i];
        assert(cs@.take(i + 1).drop_last() =~= cs@.take(i as int));
        if c == ' ' || c == '\t' {
            if !in_ws {
                out.push(' ');
                in_ws = true;
            }
        } else {
            out.push(c);
            in_ws = false;
        }
        i += 1;
    }
    assert(cs@.take(cs.len() as int) =~= cs@);
    string_of(&out)
}

/// Whether two byte strings are equal, looking at every byte of equal-length
/// inputs whatever their contents.
pub fn constant_time_eq(a: &[u8], b: &[u8]) -> (res: bool)
    ensures
        res == (a@ == b@),
{
    if a.len() != b.len() {
        return false;
    }
    let mut diff: u8 = 0;
    let mut i: usize = 0;
    while i < a.len()
        invariant
            i <= a.len(),
            a.len() == b.len(),
            (diff == 0) == (forall|j: int| 0 <= j < i ==> a@[j] == b@[j]),
        decreases a.len() - i,
    {
        let x = a[i];
        let y = b[i];
        assert((diff | (x ^ y)) == 0 <==> (diff == 0 && x == y)) by (bit_vector);
        diff = diff | (x ^ y);
        i += 1;
    }
    assert(diff == 0 ==> a@ =~= b@);
    diff == 0
}

/// Derives the SigV4 signing key for a secret and a credential scope.
pub fn derive_signing_key(secret: &str, date: &str, region: &str, service: &str) -> (res: Vec<u8>)
    ensures
        res@ == signing_key(secret@, date@, region@, service@),
        res@.len() == 32,
{
    let mut k = chars_of("AWS4");
    let sc = chars_of(secret);
    let ghost prefix = k@;
    let mut i: usize = 0;
    while i < sc.len()
        invariant
            i <= sc.len(),
            k@ == prefix + sc@.take(i as int),
        decreases sc.len() - i,
    {
        k.push(sc[i]);
        assert(sc@.take(i + 1) =~= sc@.take(i as int).push(sc@[i as int]));
        i += 1;
    }
    assert(sc@.take(sc.len() as int) =~= sc@);
    let k_secret = string_of(&k);
    let k_date = hmac_sha256(k_secret.as_str().as_bytes(), date.as_bytes());
    let k_region = hmac_sha256(&k_date, region.as_bytes());
    let k_service = hmac_sha256(&k_region, service.as_bytes());
    hmac_sha256(&k_service, "aws4_request".as_bytes())
}

/// Splits `Credential=` content into its five fields.
fn parse_credential(v: &[char]) -> (res: Option<Credential>)
    ensures
        res matches Some(c) ==> credential_of(v@) == Some(c.view()),
        res is None ==> credential_of(v@) is None,
{
    let pcs = split_chars(v, '/');
    if pcs.len() < 5 {
        return None;
    }
    let mut rest: Vec<Vec<char>> = Vec::new();
    let mut i: usize = 4;
    while i < pcs.len()
        invariant
            4 <= i <= pcs.len(),
            rest@.len() == i - 4,
            forall|j: int| 0 <= j < rest@.len() ==> (#[trigger] rest@[j])@ == pcs@[j + 4]@,
        decreases pcs.len() - i,
    {
        rest.push(slice_of(&pcs[i], 0, pcs[i].len()));
        i += 1;
    }
    let slash = chars_of("/");
    proof {
        reveal_strlit("/");
    }
    let term = join_chars(&rest, &slash);
    let ghost views = split(v@, '/');
    assert(rest@.map_values(|p: Vec<char>| p@) =~= views.skip(4));
    assert(slash@ =~= seq!['/']);
    Some(
        Credential {
            access_key: string_of(&pcs[0]),
            date: string_of(&pcs[1]),
            region: string_of(&pcs[2]),
            service: string_of(&pcs[3]),
            terminator: string_of(&term),
        },
    )
}

/// Splits `SignedHeaders=` content into trimmed lower-case names.
fn parse_signed_headers(v: &[char]) -> (res: Vec<String>)
    ensures
        res@.len() == signed_header_names(v@).len(),
        forall|i: int| 0 <= i < res@.len() ==> (#[trigger] res@[i])@ == signed_header_names(v@)[i],
{
    let pcs = split_chars(v, ';');
    let mut res: Vec<String> = Vec::new();
    let mut i: usize = 0;
    while i < pcs.len()
        invariant
            i <= pcs.len(),
            pcs@.len() == split(v@, ';').len(),
            forall|j: int| 0 <= j < pcs@.len() ==> (#[trigger] pcs@[j])@ == split(v@, ';')[j],
            res@.len() == i,
            forall|j: int| 0 <= j < i ==> (#[trigger] res@[j])@ == signed_header_names(v@)[j],
        decreases pcs.len() - i,
    {
        let t = trim_chars(&pcs[i]);
        let l = lower_chars(&t);
        res.push(string_of(&l));
        i += 1;
    }
    res
}

/// Parses an `Authorization: AWS4-HMAC-SHA256 Credential=…, SignedHeaders=…,
/// Signature=…` header value.
pub fn parse_authorization(auth: &str) -> (res: Result<ParsedAuth, SigV4Error>)
    ensures
        res matches Ok(p) ==> parse_authorization_spec(auth@) == Ok::<
            (CredentialSpec, Seq<Seq<char>>, Seq<char>),
            SigV4Error,
        >((p.credential.view(), p.signed_headers@.map_values(|h: String| h@), p.signature@)),
        res matches Err(e) ==> parse_authorization_spec(auth@) == Err::<
            (CredentialSpec, Seq<Seq<char>>, Seq<char>),
            SigV4Error,
        >(e),
{
    let a = chars_of(auth);
    let scheme = chars_of("AWS4-HMAC-SHA256");
    let rest = match strip_prefix_chars(&a, &scheme) {
        Some(r) => r,
        None => return Err(SigV4Error::Malformed("scheme")),
    };
    let after = trim_start_chars(&rest);
    let parts = split_chars(&after, ',');
    let k_cred = chars_of("Credential=");
    let k_signed = chars_of("SignedHeaders=");
    let k_sig = chars_of("Signature=");
    let ghost ps = split(trim_start(rest@), ',');
    let mut credential: Option<Credential> = None;
    let mut signed_headers: Option<Vec<String>> = None;
    let mut signature: Option<String> = None;
    let mut i: usize = 0;
    assert(ps.take(0) =~= Seq::<Seq<char>>::empty());
    while i < parts.len()
        invariant
            i <= parts.len(),
            parts@.len() == ps.len(),
            forall|j: int| 0 <= j < parts@.len() ==> (#[trigger] parts@[j])@ == ps[j],
            k_cred@ == "Credential="@,
            strip_prefix(auth@, "AWS4-HMAC-SHA256"@) == Some(rest@),
            ps == split(trim_start(rest@), ','),
            k_signed@ == "SignedHeaders="@,
            k_sig@ == "Signature="@,
            auth_scan(ps.take(i as int)) matches Ok(st) && {
                &&& (match credential {
                    Some(c) => st.credential == Some(c.view()),
                    None => st.credential is None,
                })
                &&& (match &signed_headers {
                    Some(h) => st.signed_headers == Some(h@.map_values(|x: String| x@)),
                    None => st.signed_headers is None,
                })
                &&& (match &signature {
                    Some(s) => st.signature == Some(s@),
                    None => st.signature is None,
                })
            },
        decreases parts.len() - i,
    {
        proof {
            lemma_auth_scan_push(ps.take(i as int), ps[i as int]);
            assert(ps.take(i + 1) =~= ps.take(i as int).push(ps[i as int]));
        }
        let p = trim_chars(&parts[i]);
        if let Some(v) = strip_prefix_chars(&p, &k_cred) {
            match parse_credential(&v) {
                Some(c) => {
                    credential = Some(c);
                },
                None => {
                    proof {
                        assert(p@ == trim(ps[i as int]));
                        assert(strip_prefix(p@, "Credential="@) == Some(v@));
                        assert(auth_scan(ps.take(i + 1)) is Err);
                        lemma_auth_scan_err(ps, i + 1);
                    }
                    return Err(SigV4Error::Malformed("credential"));
                },
            }
        } else if let Some(v) = strip_prefix_chars(&p, &k_signed) {
            let hs = parse_signed_headers(&v);
            assert(hs@.map_values(|x: String| x@) =~= signed_header_names(v@));
            signed_headers = Some(hs);
        } else if let Some(v) = strip_prefix_chars(&p, &k_sig) {
            let t = trim_chars(&v);
            signature = Some(string_of(&t));
        }
        i += 1;
    }
    assert(ps.take(parts.len() as int) =~= ps);
    let credential = match credential {
        Some(c) => c,
        None => return Err(SigV4Error::Malformed("Credential")),
    };
    let signed_headers = match signed_headers {
        Some(h) => h,
        None => return Err(SigV4Error::Malformed("SignedHeaders")),
    };
    let signature = match signature {
        Some(s) => s,
        None => return Err(SigV4Error::Malformed("Signature")),
    };
    Ok(ParsedAuth { credential, signed_headers, signature })
}


/// The value of the first header called `name`, if it is readable text.
fn header_str(headers: &[Header], name: &[char]) -> (res: Option<Vec<char>>)
    ensures
        res matches Some(v) ==> header_value(headers@, name@) == Some(v@),
        res is None ==> header_value(headers@, name@) is None,
{
    let mut j: usize = 0;
    assert(headers@.skip(0) =~= headers@);
    while j < headers.len()
        invariant
            j <= headers.len(),
            header_value(headers@, name@) == header_value(headers@.skip(j as int), name@),
        decreases headers.len() - j,
    {
        let hn = chars_of(headers[j].name.as_str());
        assert(headers@.skip(j as int)[0] == headers@[j as int]);
        if chars_eq(&hn, name) {
            return match &headers[j].value {
                Some(v) => Some(chars_of(v.as_str())),
                None => None,
            };
        }
        assert(headers@.skip(j as int).drop_first() =~= headers@.skip(j + 1));
        j += 1;
    }
    None
}

proof fn lemma_header_entries_push(hs: Seq<Header>, names: Seq<Seq<char>>, n: Seq<char>)
    ensures
        header_entries(hs, names.push(n)) == match header_value(hs, n) {
            Some(v) => map_put(header_entries(hs, names), n, collapse(trim(v))),
            None => header_entries(hs, names),
        },
{
    assert(names.push(n).drop_last() =~= names);
}

proof fn lemma_header_lines_push(m: Seq<(Seq<char>, Seq<char>)>, e: (Seq<char>, Seq<char>))
    ensures
        header_lines(m.push(e)) == header_lines(m) + e.0 + seq![':'] + e.1 + seq!['\n'],
{
    assert(m.push(e).drop_last() =~= m);
}

proof fn lemma_trim_newlines_at(s: Seq<char>, k: int)
    requires
        0 <= k <= s.len(),
        forall|j: int| k <= j < s.len() ==> #[trigger] s[j] == '\n',
        k == 0 || s[k - 1] != '\n',
    ensures
        trim_newlines(s) == s.take(k),
    decreases s.len() - k,
{
    if k == s.len() {
        assert(s.take(k) =~= s);
    } else {
        lemma_trim_newlines_at(s.drop_last(), k);
        assert(s.drop_last().take(k) =~= s.take(k));
    }
}

/// The canonical header block and signed-header list for the signed names
/// that are present among `headers`.
pub fn canonical_headers(headers: &[Header], signed_headers: &[String]) -> (res: (String, String))
    ensures
        (res.0@, res.1@) == canonical_headers_spec(
            headers@,
            signed_headers@.map_values(|h: String| h@),
        ),
{
    let ghost sv = signed_headers@.map_values(|h: String| h@);
    let mut m: Vec<(Vec<char>, Vec<char>)> = Vec::new();
    let mut i: usize = 0;
    assert(sv.take(0) =~= Seq::<Seq<char>>::empty());
    while i < signed_headers.len()
        invariant
            i <= signed_headers.len(),
            sv == signed_headers@.map_values(|h: String| h@),
            pairs_view(m@) == header_entries(headers@, sv.take(i as int)),
        decreases signed_headers.len() - i,
    {
        let name = chars_of(signed_headers[i].as_str());
        proof {
            lemma_header_entries_push(headers@, sv.take(i as int), sv[i as int]);
            assert(sv.take(i + 1) =~= sv.take(i as int).push(sv[i as int]));
        }
        match header_str(headers, &name) {
            Some(v) => {
                let t = trim_chars(&v);
                let c = collapse_ws(string_of(&t).as_str());
                let cv = chars_of(c.as_str());
                map_put_exec(&mut m, name, cv);
            },
            None => {},
        }
        i += 1;
    }
    assert(sv.take(signed_headers.len() as int) =~= sv);
    let ghost mv = pairs_view(m@);
    let mut lines: Vec<char> = Vec::new();
    let mut keys: Vec<Vec<char>> = Vec::new();
    let mut k: usize = 0;
    while k < m.len()
        invariant
            k <= m.len(),
            mv == pairs_view(m@),
            lines@ == header_lines(mv.take(k as int)),
            keys@.map_values(|x: Vec<char>| x@) == mv.take(k as int).map_values(
                |e: (Seq<char>, Seq<char>)| e.0,
            ),
        decreases m.len() - k,
    {
        proof {
            lemma_header_lines_push(mv.take(k as int), mv[k as int]);
            assert(mv.take(k + 1) =~= mv.take(k as int).push(mv[k as int]));
        }
        extend_chars(&mut lines, &m[k].0);
        lines.push(':');
        extend_chars(&mut lines, &m[k].1);
        lines.push('\n');
        assert(lines@ =~= header_lines(mv.take(k as int)) + mv[k as int].0 + seq![':'] + mv[k as int].1 + seq!['\n']);
        let key = slice_of(&m[k].0, 0, m[k].0.len());
        let ghost old_keys = keys@;
        assert(key@ == mv[k as int].0);
        keys.push(key);
        assert(keys@.map_values(|x: Vec<char>| x@) =~= old_keys.map_values(|x: Vec<char>| x@).push(
            key@,
        ));
        assert(mv.take(k + 1).map_values(|e: (Seq<char>, Seq<char>)| e.0) =~= mv.take(
            k as int,
        ).map_values(|e: (Seq<char>, Seq<char>)| e.0).push(mv[k as int].0));
        k += 1;
    }
    assert(mv.take(m.len() as int) =~= mv);
    let mut e = lines.len();
    while e > 0 && lines[e - 1] == '\n'
        invariant
            e <= lines.len(),
            forall|j: int| e <= j < lines@.len() ==> #[trigger] lines@[j] == '\n',
        decreases e,
    {
        e -= 1;
    }
    proof {
        lemma_trim_newlines_at(lines@, e as int);
    }
    let block = slice_of(&lines, 0, e);
    let semi = chars_of(";");
    proof {
        reveal_strlit(";");
    }
    assert(semi@ =~= seq![';']);
    let names = join_chars(&keys, &semi);
    (string_of(&block), string_of(&names))
}

/// Percent-decodes a query component, reading the bytes as UTF-8 lossily.
fn decode(s: &[char]) -> (res: Vec<char>)
    ensures
        res@ == decode_component(s@),
{
    let st = string_of(s);
    let raw = percent_decode_str(st.as_str());
    let text = from_utf8_lossy(&raw);
    chars_of(text.as_str())
}

/// Percent-encodes a query component for the canonical query string.
fn encode_query_component(s: &[char]) -> (res: Vec<char>)
    ensures
        res@ == encode_component(s@),
{
    let st = string_of(s);
    pct_encode_bytes(st.as_str().as_bytes(), true, false)
}

proof fn lemma_query_pairs_push(parts: Seq<Seq<char>>, p: Seq<char>)
    ensures
        query_pairs(parts.push(p)) == if p.len() == 0 {
            query_pairs(parts)
        } else {
            query_pairs(parts).push(query_pair(p))
        },
{
    assert(parts.push(p).drop_last() =~= parts);
}

/// The decoded `(name, value)` pairs of a query string, in order: its
/// non-empty `&`-separated parts, each split at its first `=`.
pub fn query_params(query: &str) -> (res: Vec<(Vec<char>, Vec<char>)>)
    ensures
        pairs_view(res@) == query_pairs(split(query@, '&')),
{
    let q = chars_of(query);
    let parts = split_chars(&q, '&');
    let ghost ps = split(q@, '&');
    let mut pairs: Vec<(Vec<char>, Vec<char>)> = Vec::new();
    let mut i: usize = 0;
    assert(ps.take(0) =~= Seq::<Seq<char>>::empty());
    while i < parts.len()
        invariant
            i <= parts.len(),
            parts@.len() == ps.len(),
            forall|j: int| 0 <= j < parts@.len() ==> (#[trigger] parts@[j])@ == ps[j],
            pairs_view(pairs@) == query_pairs(ps.take(i as int)),
        decreases parts.len() - i,
    {
        proof {
            lemma_query_pairs_push(ps.take(i as int), ps[i as int]);
            assert(ps.take(i + 1) =~= ps.take(i as int).push(ps[i as int]));
        }
        let p = &parts[i];
        if p.len() > 0 {
            let (kc, vc) = match find_char_exec(p, '=') {
                Some(j) => (slice_of(p, 0, j), slice_of(p, j + 1, p.len())),
                None => (slice_of(p, 0, p.len()), Vec::new()),
            };
            assert(kc@ == before_first(p@, '='));
            assert(vc@ == match after_first(p@, '=') {
                Some(v) => v,
                None => Seq::<char>::empty(),
            }) by {
                if find_char(p@, '=') is None {
                    assert(vc@ =~= Seq::<char>::empty());
                }
            }
            let k = decode(&kc);
            let v = decode(&vc);
            let ghost before = pairs_view(pairs@);
            pairs.push((k, v));
            assert(pairs_view(pairs@) =~= before.push((k@, v@)));
        }
        i += 1;
    }
    assert(ps.take(parts.len() as int) =~= ps);
    pairs
}

/// The SigV4 canonical form of a query string: parameters decoded, sorted by
/// name then value, re-encoded, and joined with `&`.
pub fn canonical_query(query: &str) -> (res: String)
    ensures
        res@ == canonical_query_spec(query@),
{
    let q = chars_of(query);
    if q.len() == 0 {
        return String::new();
    }
    let pairs = query_params(query);
    let sorted = sort_pairs_exec(pairs);
    let ghost sv = pairs_view(sorted@);
    let mut rendered: Vec<Vec<char>> = Vec::new();
    let mut k: usize = 0;
    while k < sorted.len()
        invariant
            k <= sorted.len(),
            sv == pairs_view(sorted@),
            rendered@.map_values(|x: Vec<char>| x@) == sv.take(k as int).map_values(
                |p: (Seq<char>, Seq<char>)| render_pair(p),
            ),
        decreases sorted.len() - k,
    {
        let mut piece = encode_query_component(&sorted[k].0);
        piece.push('=');
        let ev = encode_query_component(&sorted[k].1);
        extend_chars(&mut piece, &ev);
        assert(piece@ =~= render_pair(sv[k as int]));
        let ghost old_r = rendered@;
        let ghost pv = piece@;
        rendered.push(piece);
        assert(rendered@.map_values(|x: Vec<char>| x@) =~= old_r.map_values(|x: Vec<char>| x@).push(
            pv,
        ));
        assert(sv.take(k + 1).map_values(|p: (Seq<char>, Seq<char>)| render_pair(p)) =~= sv.take(
            k as int,
        ).map_values(|p: (Seq<char>, Seq<char>)| render_pair(p)).push(render_pair(sv[k as int])));
        k += 1;
    }
    assert(sv.take(sorted.len() as int) =~= sv);
    let amp = chars_of("&");
    proof {
        reveal_strlit("&");
    }
    assert(amp@ =~= seq!['&']);
    let out = join_chars(&rendered, &amp);
    string_of(&out)
}

/// The whole seconds, truncated toward zero, between `now` and a timestamp,
/// compared against the 900-second window.
fn skew_exceeds(now_secs: i64, now_nanos: u32, ts_secs: i64, ts_nanos: u32) -> (res: bool)
    ensures
        res == skew_too_large(now_secs as int, now_nanos as int, ts_secs as int, ts_nanos as int),
{
    let d: i128 = (now_secs as i128 - ts_secs as i128) * 1_000_000_000i128 + (now_nanos as i128
        - ts_nanos as i128);
    let secs: i128 = if d >= 0 {
        d / 1_000_000_000i128
    } else {
        -((-d) / 1_000_000_000i128)
    };
    secs > 900 || secs < -900
}

/// Checks a request's `AWS4-HMAC-SHA256` signature against the signing
/// secret, with the clock reading `now_secs` seconds and `now_nanos`
/// nanoseconds.
#[verifier::spinoff_prover]
#[verifier::rlimit(40)]
pub fn verify_at(input: &AuthInput, now_secs: i64, now_nanos: u32) -> (res: Result<(), SigV4Error>)
    ensures
        res == verify_spec(*input, now_secs as int, now_nanos as int),
{
    let hs = input.headers;
    let auth = match header_str(hs, &chars_of("authorization")) {
        Some(a) => a,
        None => return Err(SigV4Error::Missing("Authorization")),
    };
    let amz_date = match header_str(hs, &chars_of("x-amz-date")) {
        Some(d) => d,
        None => return Err(SigV4Error::Missing("x-amz-date")),
    };
    let content_sha = match header_str(hs, &chars_of("x-amz-content-sha256")) {
        Some(v) => v,
        None => Vec::new(),
    };
    if starts_with(&content_sha, &chars_of("STREAMING-AWS4-HMAC-SHA256-PAYLOAD")) {
        return Err(SigV4Error::UnsupportedPayload);
    }
    let parsed = match parse_authorization(string_of(&auth).as_str()) {
        Ok(p) => p,
        Err(e) => return Err(e),
    };
    let ghost c = parsed.credential.view();
    let access = chars_of(parsed.credential.access_key.as_str());
    if !chars_eq(&access, &chars_of(input.access_key)) {
        return Err(SigV4Error::AccessKeyMismatch);
    }
    let region = chars_of(parsed.credential.region.as_str());
    let service = chars_of(parsed.credential.service.as_str());
    let terminator = chars_of(parsed.credential.terminator.as_str());
    if !chars_eq(&region, &chars_of(input.region)) || !chars_eq(&service, &chars_of("s3"))
        || !chars_eq(&terminator, &chars_of("aws4_request")) {
        return Err(SigV4Error::ScopeMismatch);
    }
    let date = chars_of(parsed.credential.date.as_str());
    if !starts_with(&amz_date, &date) {
        return Err(SigV4Error::ScopeMismatch);
    }
    let amz_date_s = string_of(&amz_date);
    match parse_naive_utc(amz_date_s.as_str(), "%Y%m%dT%H%M%SZ") {
        Some(t) => {
            if skew_exceeds(now_secs, now_nanos, t.0, t.1) {
                return Err(SigV4Error::SkewTooLarge);
            }
        },
        None => {},
    }
    let unsigned = chars_of("UNSIGNED-PAYLOAD");
    let payload = if content_sha.len() == 0 || chars_eq(&content_sha, &unsigned) {
        unsigned
    } else if chars_eq(&content_sha, &chars_of(input.body_sha256_hex)) {
        content_sha
    } else {
        return Err(SigV4Error::SignatureMismatch);
    };
    let (ch, names) = canonical_headers(hs, &parsed.signed_headers);
    let mut signed_parts: Vec<Vec<char>> = Vec::new();
    let mut i: usize = 0;
    while i < parsed.signed_headers.len()
        invariant
            i <= parsed.signed_headers.len(),
            signed_parts@.map_values(|x: Vec<char>| x@) == parsed.signed_headers@.take(
                i as int,
            ).map_values(|h: String| h@),
        decreases parsed.signed_headers.len() - i,
    {
        let ghost old_parts = signed_parts@;
        let part = chars_of(parsed.signed_headers[i].as_str());
        let ghost pv = part@;
        signed_parts.push(part);
        assert(signed_parts@.map_values(|x: Vec<char>| x@) =~= old_parts.map_values(
            |x: Vec<char>| x@,
        ).push(pv));
        assert(parsed.signed_headers@.take(i + 1).map_values(|h: String| h@) =~= parsed.signed_headers@.take(
            i as int,
        ).map_values(|h: String| h@).push(parsed.signed_headers@[i as int]@));
        i += 1;
    }
    assert(parsed.signed_headers@.take(parsed.signed_headers.len() as int) =~= parsed.signed_headers@);
    let semi = chars_of(";");
    proof {
        reveal_strlit(";");
    }
    assert(semi@ =~= seq![';']);
    let joined = join_chars(&signed_parts, &semi);
    let names_c = chars_of(names.as_str());
    if !chars_eq(&names_c, &joined) {
        return Err(SigV4Error::Malformed("signed headers"));
    }
    let nl = '\n';
    let mut creq = upper_chars(&chars_of(input.method));
    creq.push(nl);
    let path_enc = pct_encode_bytes(input.path.as_bytes(), true, true);
    extend_chars(&mut creq, &path_enc);
    creq.push(nl);
    let cq = canonical_query(input.query);
    extend_chars(&mut creq, &chars_of(cq.as_str()));
    creq.push(nl);
    extend_chars(&mut creq, &chars_of(ch.as_str()));
    creq.push(nl);
    creq.push(nl);
    extend_chars(&mut creq, &names_c);
    creq.push(nl);
    extend_chars(&mut creq, &payload);
    let ghost creq_v = canonical_request(
        input.method@,
        input.path@,
        input.query@,
        ch@,
        names@,
        payload@,
    );
    assert(creq@ =~= creq_v);
    let creq_s = string_of(&creq);
    let digest = sha256(creq_s.as_str().as_bytes());
    let digest_hex = hex_encode(&digest);
    let mut sts = chars_of("AWS4-HMAC-SHA256");
    sts.push(nl);
    extend_chars(&mut sts, &amz_date);
    sts.push(nl);
    let mut scope = slice_of(&date, 0, date.len());
    scope.push('/');
    extend_chars(&mut scope, &region);
    scope.push('/');
    extend_chars(&mut scope, &service);
    scope.push('/');
    extend_chars(&mut scope, &terminator);
    assert(scope@ =~= credential_scope(c));
    extend_chars(&mut sts, &scope);
    sts.push(nl);
    extend_chars(&mut sts, &chars_of(digest_hex.as_str()));
    assert(sts@ =~= string_to_sign(amz_date@, credential_scope(c), creq_v));
    let key = derive_signing_key(
        input.secret_key,
        parsed.credential.date.as_str(),
        parsed.credential.region.as_str(),
        parsed.credential.service.as_str(),
    );
    let sts_s = string_of(&sts);
    let mac = hmac_sha256(&key, sts_s.as_str().as_bytes());
    let signature = hex_encode(&mac);
    if constant_time_eq(signature.as_str().as_bytes(), parsed.signature.as_str().as_bytes()) {
        Ok(())
    } else {
        Err(SigV4Error::SignatureMismatch)
    }
}

/// Checks a request's `AWS4-HMAC-SHA256` signature against the signing
/// secret at the current time. Whatever the clock reads, the outcome is the
/// one [`verify_spec`] gives for some reading of it.
pub fn verify(input: &AuthInput) -> (res: Result<(), SigV4Error>)
    ensures
        exists|s: i64, n: u32| res == verify_spec(*input, s as int, n as int),
{
    let now = utc_now();
    verify_at(input, now.0, now.1)
}

/// The clock window: a request is refused for skew exactly when its
/// timestamp lies 901 seconds or more from the clock (so anything less than
/// 15 minutes and a second away is accepted).
pub proof fn law_skew_window(now_s: int, now_ns: int, ts_s: int, ts_ns: int)
    ensures
        skew_too_large(now_s, now_ns, ts_s, ts_ns) <==> ({
            let d = (now_s - ts_s) * 1_000_000_000 + (now_ns - ts_ns);
            d >= 901_000_000_000 || d <= -901_000_000_000
        }),
{
    let d = (now_s - ts_s) * 1_000_000_000 + (now_ns - ts_ns);
    if d >= 0 {
        assert(d / 1_000_000_000 > 900 <==> d >= 901_000_000_000) by (nonlinear_arith)
            requires
                d >= 0,
        ;
    } else {
        assert((-d) / 1_000_000_000 > 900 <==> -d >= 901_000_000_000) by (nonlinear_arith)
            requires
                -d > 0,
        ;
    }
}


/// The claimed payload hash is absent or `UNSIGNED-PAYLOAD`.
pub open spec fn unsigned_payload(hs: Seq<Header>) -> bool {
    match header_value(hs, "x-amz-content-sha256"@) {
        Some(v) => v.len() == 0 || v == "UNSIGNED-PAYLOAD"@,
        None => true,
    }
}

/// An unsigned payload is signed as the literal text `UNSIGNED-PAYLOAD`,
/// not as the body: when the request claims no hash or `UNSIGNED-PAYLOAD`,
/// two requests that differ only in their bodies get the same answer.
pub proof fn law_unsigned_payload_ignores_body(a: AuthInput, b: AuthInput, now_s: int, now_ns: int)
    requires
        a.method@ == b.method@,
        a.path@ == b.path@,
        a.query@ == b.query@,
        a.headers@ == b.headers@,
        a.access_key@ == b.access_key@,
        a.secret_key@ == b.secret_key@,
        a.region@ == b.region@,
        unsigned_payload(a.headers@),
    ensures
        verify_spec(a, now_s, now_ns) == verify_spec(b, now_s, now_ns),
{
    let content_sha = match header_value(a.headers@, "x-amz-content-sha256"@) {
        Some(v) => v,
        None => Seq::<char>::empty(),
    };
    assert(payload_hash(content_sha, a.body_sha256_hex@) == Some("UNSIGNED-PAYLOAD"@));
    assert(payload_hash(content_sha, b.body_sha256_hex@) == Some("UNSIGNED-PAYLOAD"@));
}

/// A request whose payload is unsigned, correct in every other part (the
/// authorization parses, names this key, region and service, its date
/// starts the timestamp, the clock is within the window, the signed
/// headers are the ones present), and signed by the holder of the secret
/// over the canonical request whose last line is `UNSIGNED-PAYLOAD`, is
/// accepted, whatever its body.
pub proof fn law_unsigned_payload_request_verifies(
    input: AuthInput,
    now_s: int,
    now_ns: int,
    auth: Seq<char>,
    amz_date: Seq<char>,
    c: CredentialSpec,
    signed: Seq<Seq<char>>,
    sig: Seq<char>,
)
    requires
        header_value(input.headers@, "authorization"@) == Some(auth),
        header_value(input.headers@, "x-amz-date"@) == Some(amz_date),
        unsigned_payload(input.headers@),
        parse_authorization_spec(auth) == Ok::<(CredentialSpec, Seq<Seq<char>>, Seq<char>), SigV4Error>((c, signed, sig)),
        c.access_key == input.access_key@,
        c.region == input.region@,
        c.service == "s3"@,
        c.terminator == "aws4_request"@,
        c.date.is_prefix_of(amz_date),
        !(match naive_utc_parse(amz_date, "%Y%m%dT%H%M%SZ"@) {
            Some(t) => skew_too_large(now_s, now_ns, t.0, t.1),
            None => false,
        }),
        canonical_headers_spec(input.headers@, signed).1 == join(signed, seq![';']),
        bytes(sig) == bytes(
            expected_signature(
                input.secret_key@,
                c,
                amz_date,
                upper(input.method@) + seq!['\n'] + pct_encode(bytes(input.path@), true, true) + seq!['\n']
                    + canonical_query_spec(input.query@) + seq!['\n'] + canonical_headers_spec(input.headers@, signed).0
                    + seq!['\n'] + seq!['\n'] + canonical_headers_spec(input.headers@, signed).1 + seq!['\n']
                    + "UNSIGNED-PAYLOAD"@,
            ),
        ),
    ensures
        verify_spec(input, now_s, now_ns) == Ok::<(), SigV4Error>(()),
{
    reveal_strlit("UNSIGNED-PAYLOAD");
    reveal_strlit("STREAMING-AWS4-HMAC-SHA256-PAYLOAD");
    let content_sha = match header_value(input.headers@, "x-amz-content-sha256"@) {
        Some(v) => v,
        None => Seq::<char>::empty(),
    };
    assert(!"STREAMING-AWS4-HMAC-SHA256-PAYLOAD"@.is_prefix_of(content_sha)) by {
        if content_sha.len() > 0 {
            assert(content_sha[0] == 'U');
        }
    }
    assert(payload_hash(content_sha, input.body_sha256_hex@) == Some("UNSIGNED-PAYLOAD"@));
}

} // verus!
