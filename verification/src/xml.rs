//! XML character-data escaping and the S3 error document.
use vstd::prelude::*;

use crate::text::chars_of;
use crate::text::extend_chars;
use crate::text::string_of;

verus! {

/// The five predefined XML entities for the characters that need them; any
/// other character stands for itself.
pub open spec fn xml_entity(c: char) -> Seq<char> {
    if c == '&' {
        "&amp;"@
    } else if c == '<' {
        "&lt;"@
    } else if c == '>' {
        "&gt;"@
    } else if c == '"' {
        "&quot;"@
    } else if c == '\'' {
        "&apos;"@
    } else {
        seq![c]
    }
}

/// `s` with every character replaced by its entity.
pub open spec fn escape(s: Seq<char>) -> Seq<char>
    decreases s.len(),
{
    if s.len() == 0 {
        Seq::<char>::empty()
    } else {
        escape(s.drop_last()) + xml_entity(s.last())
    }
}

/// The XML declaration that opens every S3 response body.
pub const XML_DECL: &'static str = "<?xml version=\"1.0\" encoding=\"UTF-8\"?>";

/// The S3 `<Error>` document.
pub open spec fn error_document(
    code: Seq<char>,
    message: Seq<char>,
    resource: Seq<char>,
    request_id: Seq<char>,
) -> Seq<char> {
    XML_DECL@ + "<Error><Code>"@ + escape(code) + "</Code><Message>"@ + escape(message)
        + "</Message><Resource>"@ + escape(resource) + "</Resource><RequestId>"@ + escape(
        request_id,
    ) + "</RequestId></Error>"@
}

proof fn lemma_escape_push(s: Seq<char>, c: char)
    ensures
        escape(s.push(c)) == escape(s) + xml_entity(c),
{
    assert(s.push(c).drop_last() =~= s);
}

/// Escapes `cs` for XML character data.
pub fn escape_chars(cs: &[char]) -> (res: Vec<char>)
    ensures
        res@ == escape(cs@),
{
    let amp = chars_of("&amp;");
    let lt = chars_of("&lt;");
    let gt = chars_of("&gt;");
    let quot = chars_of("&quot;");
    let apos = chars_of("&apos;");
    let mut out: Vec<char> = Vec::new();
    let mut i: usize = 0;
    while i < cs.len()
        invariant
            i <= cs.len(),
            out@ == escape(cs@.take(i as int)),
            amp@ == "&amp;"@,
            lt@ == "&lt;"@,
            gt@ == "&gt;"@,
            quot@ == "&quot;"@,
            apos@ == "&apos;"@,
        decreases cs.len() - i,
    {
        proof {
            lemma_escape_push(cs@.take(i as int), cs@[i as int]);
            assert(cs@.take(i + 1) =~= cs@.take(i as int).push(cs@[i as int]));
        }
        let c = cs[i];
        if c == '&' {
            extend_chars(&mut out, &amp);
        } else if c == '<' {
            extend_chars(&mut out, &lt);
        } else if c == '>' {
            extend_chars(&mut out, &gt);
        } else if c == '"' {
            extend_chars(&mut out, &quot);
        } else if c == '\'' {
            extend_chars(&mut out, &apos);
        } else {
            let ghost before = out@;
            out.push(c);
            assert(out@ =~= before + seq![c]);
        }
        i += 1;
    }
    assert(cs@.take(cs.len() as int) =~= cs@);
    out
}

/// Escapes `s` for XML character data.
pub fn esc(s: &str) -> (res: String)
    ensures
        res@ == escape(s@),
{
    string_of(&escape_chars(&chars_of(s)))
}

/// The S3 `<Error>` document for an error code, message, resource and
/// request id, each escaped.
pub fn error(code: &str, message: &str, resource: &str, request_id: &str) -> (res: String)
    ensures
        res@ == error_document(code@, message@, resource@, request_id@),
{
    let mut out = chars_of(XML_DECL);
    extend_chars(&mut out, &chars_of("<Error><Code>"));
    extend_chars(&mut out, &escape_chars(&chars_of(code)));
    extend_chars(&mut out, &chars_of("</Code><Message>"));
    extend_chars(&mut out, &escape_chars(&chars_of(message)));
    extend_chars(&mut out, &chars_of("</Message><Resource>"));
    extend_chars(&mut out, &escape_chars(&chars_of(resource)));
    extend_chars(&mut out, &chars_of("</Resource><RequestId>"));
    extend_chars(&mut out, &escape_chars(&chars_of(request_id)));
    extend_chars(&mut out, &chars_of("</RequestId></Error>"));
    string_of(&out)
}

/// Whether a character opens or closes markup or quotes an attribute.
pub open spec fn is_markup(c: char) -> bool {
    c == '<' || c == '>' || c == '"' || c == '\''
}

/// Escaped text holds no markup character, and every `&` in it starts one
/// of the five entities: escaping leaves nothing that could end the
/// character data or an attribute value.
pub proof fn law_escape_has_no_markup(s: Seq<char>)
    ensures
        forall|i: int| 0 <= i < escape(s).len() ==> !is_markup(#[trigger] escape(s)[i]),
        forall|i: int|
            0 <= i < escape(s).len() && escape(s)[i] == '&' ==> {
                let rest = #[trigger] escape(s).skip(i);
                ||| "&amp;"@.is_prefix_of(rest)
                ||| "&lt;"@.is_prefix_of(rest)
                ||| "&gt;"@.is_prefix_of(rest)
                ||| "&quot;"@.is_prefix_of(rest)
                ||| "&apos;"@.is_prefix_of(rest)
            },
    decreases s.len(),
{
    reveal_strlit("&amp;");
    reveal_strlit("&lt;");
    reveal_strlit("&gt;");
    reveal_strlit("&quot;");
    reveal_strlit("&apos;");
    if s.len() > 0 {
        let t = s.drop_last();
        law_escape_has_no_markup(t);
        let a = escape(t);
        let b = xml_entity(s.last());
        assert(escape(s) == a + b);
        assert forall|i: int| 0 <= i < escape(s).len() implies !is_markup(#[trigger] escape(s)[i]) by {
            if i < a.len() {
                assert(escape(s)[i] == a[i]);
            } else {
                assert(escape(s)[i] == b[i - a.len()]);
            }
        }
        assert forall|i: int|
            0 <= i < escape(s).len() && escape(s)[i] == '&' implies {
                let rest = #[trigger] escape(s).skip(i);
                ||| "&amp;"@.is_prefix_of(rest)
                ||| "&lt;"@.is_prefix_of(rest)
                ||| "&gt;"@.is_prefix_of(rest)
                ||| "&quot;"@.is_prefix_of(rest)
                ||| "&apos;"@.is_prefix_of(rest)
            } by {
            if i < a.len() {
                assert(escape(s)[i] == a[i]);
                let ra = a.skip(i);
                assert(escape(s).skip(i) =~= ra + b);
                assert(a.skip(i)[0] == '&');
                if "&amp;"@.is_prefix_of(ra) {
                    assert("&amp;"@.is_prefix_of(ra + b));
                } else if "&lt;"@.is_prefix_of(ra) {
                    assert("&lt;"@.is_prefix_of(ra + b));
                } else if "&gt;"@.is_prefix_of(ra) {
                    assert("&gt;"@.is_prefix_of(ra + b));
                } else if "&quot;"@.is_prefix_of(ra) {
                    assert("&quot;"@.is_prefix_of(ra + b));
                } else {
                    assert("&apos;"@.is_prefix_of(ra + b));
                }
            } else {
                let k = i - a.len();
                assert(escape(s)[i] == b[k]);
                assert(escape(s).skip(i) =~= b.skip(k));
                if s.last() == '&' || s.last() == '<' || s.last() == '>' || s.last() == '"'
                    || s.last() == '\'' {
                    assert(k == 0);
                    assert(b.skip(0) =~= b);
                } else {
                    assert(b =~= seq![s.last()]);
                }
            }
        }
    } else {
        assert(escape(s) =~= Seq::<char>::empty());
    }
}


/// Whether a character is replaced by an entity.
pub open spec fn needs_entity(c: char) -> bool {
    c == '&' || is_markup(c)
}

/// Entity decoding in one pass from the left: each of the five entities
/// stands for its character, anything else for itself.
pub open spec fn unescape(t: Seq<char>) -> Seq<char>
    decreases t.len(),
{
    if t.len() == 0 {
        Seq::<char>::empty()
    } else if "&amp;"@.is_prefix_of(t) && t.len() >= 5 {
        seq!['&'] + unescape(t.skip(5))
    } else if "&lt;"@.is_prefix_of(t) && t.len() >= 4 {
        seq!['<'] + unescape(t.skip(4))
    } else if "&gt;"@.is_prefix_of(t) && t.len() >= 4 {
        seq!['>'] + unescape(t.skip(4))
    } else if "&quot;"@.is_prefix_of(t) && t.len() >= 6 {
        seq!['"'] + unescape(t.skip(6))
    } else if "&apos;"@.is_prefix_of(t) && t.len() >= 6 {
        seq!['\''] + unescape(t.skip(6))
    } else {
        seq![t[0]] + unescape(t.drop_first())
    }
}

proof fn lemma_escape_front(c: char, s: Seq<char>)
    ensures
        escape(seq![c] + s) == xml_entity(c) + escape(s),
    decreases s.len(),
{
    let x = seq![c] + s;
    if s.len() == 0 {
        assert(x =~= seq![c]);
        assert(x.drop_last() =~= Seq::<char>::empty());
        assert(x.last() == c);
        assert(escape(x.drop_last()) =~= Seq::<char>::empty());
        assert(escape(x) == escape(x.drop_last()) + xml_entity(x.last()));
        assert(escape(x) =~= xml_entity(c));
        assert(escape(s) =~= Seq::<char>::empty());
        assert(xml_entity(c) + escape(s) =~= xml_entity(c));
    } else {
        lemma_escape_front(c, s.drop_last());
        assert(x.drop_last() =~= seq![c] + s.drop_last());
        assert(x.last() == s.last());
        assert(escape(x) =~= xml_entity(c) + escape(s));
    }
}

proof fn lemma_unescape_entity(c: char, r: Seq<char>)
    ensures
        unescape(xml_entity(c) + r) == seq![c] + unescape(r),
{
    reveal_strlit("&amp;");
    reveal_strlit("&lt;");
    reveal_strlit("&gt;");
    reveal_strlit("&quot;");
    reveal_strlit("&apos;");
    let t = xml_entity(c) + r;
    if c == '&' {
        assert("&amp;"@.is_prefix_of(t)) by {
            assert(t.subrange(0, 5) =~= "&amp;"@);
        }
        assert(t.skip(5) =~= r);
    } else if c == '<' {
        assert(!"&amp;"@.is_prefix_of(t)) by {
            if "&amp;"@.is_prefix_of(t) {
                assert(t.subrange(0, 5)[1] == 'a');
            }
        }
        assert("&lt;"@.is_prefix_of(t)) by {
            assert(t.subrange(0, 4) =~= "&lt;"@);
        }
        assert(t.skip(4) =~= r);
    } else if c == '>' {
        assert(!"&amp;"@.is_prefix_of(t)) by {
            if "&amp;"@.is_prefix_of(t) {
                assert(t.subrange(0, 5)[1] == 'a');
            }
        }
        assert(!"&lt;"@.is_prefix_of(t)) by {
            if "&lt;"@.is_prefix_of(t) {
                assert(t.subrange(0, 4)[1] == 'l');
            }
        }
        assert("&gt;"@.is_prefix_of(t)) by {
            assert(t.subrange(0, 4) =~= "&gt;"@);
        }
        assert(t.skip(4) =~= r);
    } else if c == '"' {
        assert(!"&amp;"@.is_prefix_of(t)) by {
            if "&amp;"@.is_prefix_of(t) {
                assert(t.subrange(0, 5)[1] == 'a');
            }
        }
        assert(!"&lt;"@.is_prefix_of(t)) by {
            if "&lt;"@.is_prefix_of(t) {
                assert(t.subrange(0, 4)[1] == 'l');
            }
        }
        assert(!"&gt;"@.is_prefix_of(t)) by {
            if "&gt;"@.is_prefix_of(t) {
                assert(t.subrange(0, 4)[1] == 'g');
            }
        }
        assert("&quot;"@.is_prefix_of(t)) by {
            assert(t.subrange(0, 6) =~= "&quot;"@);
        }
        assert(t.skip(6) =~= r);
    } else if c == '\'' {
        assert(!"&amp;"@.is_prefix_of(t)) by {
            if "&amp;"@.is_prefix_of(t) {
                assert(t.subrange(0, 5)[2] == 'm');
            }
        }
        assert(!"&lt;"@.is_prefix_of(t)) by {
            if "&lt;"@.is_prefix_of(t) {
                assert(t.subrange(0, 4)[1] == 'l');
            }
        }
        assert(!"&gt;"@.is_prefix_of(t)) by {
            if "&gt;"@.is_prefix_of(t) {
                assert(t.subrange(0, 4)[1] == 'g');
            }
        }
        assert(!"&quot;"@.is_prefix_of(t)) by {
            if "&quot;"@.is_prefix_of(t) {
                assert(t.subrange(0, 6)[1] == 'q');
            }
        }
        assert("&apos;"@.is_prefix_of(t)) by {
            assert(t.subrange(0, 6) =~= "&apos;"@);
        }
        assert(t.skip(6) =~= r);
    } else {
        assert(t[0] == c);
        assert(!"&amp;"@.is_prefix_of(t)) by {
            if "&amp;"@.is_prefix_of(t) {
                assert(t.subrange(0, 5)[0] == '&');
            }
        }
        assert(!"&lt;"@.is_prefix_of(t)) by {
            if "&lt;"@.is_prefix_of(t) {
                assert(t.subrange(0, 4)[0] == '&');
            }
        }
        assert(!"&gt;"@.is_prefix_of(t)) by {
            if "&gt;"@.is_prefix_of(t) {
                assert(t.subrange(0, 4)[0] == '&');
            }
        }
        assert(!"&quot;"@.is_prefix_of(t)) by {
            if "&quot;"@.is_prefix_of(t) {
                assert(t.subrange(0, 6)[0] == '&');
            }
        }
        assert(!"&apos;"@.is_prefix_of(t)) by {
            if "&apos;"@.is_prefix_of(t) {
                assert(t.subrange(0, 6)[0] == '&');
            }
        }
        assert(t.drop_first() =~= r);
    }
}

/// Decoding the entities of escaped text gives the text back.
pub proof fn law_unescape_escape(s: Seq<char>)
    ensures
        unescape(escape(s)) == s,
    decreases s.len(),
{
    if s.len() > 0 {
        let rest = s.drop_first();
        assert(s =~= seq![s[0]] + rest);
        lemma_escape_front(s[0], rest);
        lemma_unescape_entity(s[0], escape(rest));
        law_unescape_escape(rest);
    } else {
        assert(escape(s) =~= Seq::<char>::empty());
    }
}

proof fn lemma_escape_len(s: Seq<char>)
    ensures
        escape(s).len() >= s.len(),
        (exists|i: int| 0 <= i < s.len() && needs_entity(#[trigger] s[i])) ==> escape(s).len() > s.len(),
        (forall|i: int| 0 <= i < s.len() ==> !needs_entity(#[trigger] s[i])) ==> escape(s) == s,
    decreases s.len(),
{
    reveal_strlit("&amp;");
    reveal_strlit("&lt;");
    reveal_strlit("&gt;");
    reveal_strlit("&quot;");
    reveal_strlit("&apos;");
    if s.len() > 0 {
        let t = s.drop_last();
        lemma_escape_len(t);
        if exists|i: int| 0 <= i < s.len() && needs_entity(#[trigger] s[i]) {
            let i = choose|i: int| 0 <= i < s.len() && needs_entity(#[trigger] s[i]);
            if i < t.len() {
                assert(t[i] == s[i]);
            }
        }
        if forall|i: int| 0 <= i < s.len() ==> !needs_entity(#[trigger] s[i]) {
            assert forall|i: int| 0 <= i < t.len() implies !needs_entity(#[trigger] t[i]) by {
                assert(t[i] == s[i]);
            }
            assert(!needs_entity(s[s.len() - 1]));
            assert(escape(s) =~= t.push(s.last()));
            assert(t.push(s.last()) =~= s);
        }
    } else {
        assert(escape(s) =~= s);
    }
}

/// Escaping changes a text exactly when it holds one of the five
/// characters `&`, `<`, `>`, `"` and `'`.
pub proof fn law_escape_changes_only_special_text(s: Seq<char>)
    ensures
        escape(s) == s <==> forall|i: int| 0 <= i < s.len() ==> !needs_entity(#[trigger] s[i]),
{
    lemma_escape_len(s);
}

} // verus!
