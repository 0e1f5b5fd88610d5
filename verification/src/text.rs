//! Small text utilities used when rendering pages around the gateway.

use vstd::prelude::*;
use vstd::string::StrSliceExecFns;
use vstd::string::StringExecFns;

use crate::strutil::str_eq;

verus! {

/// The HTML entity replacement for one character; characters without a
/// special meaning in HTML stay as they are.
pub open spec fn escape_char(c: char) -> Seq<char> {
    if c == '&' {
        "&amp;"@
    } else if c == '<' {
        "&lt;"@
    } else if c == '>' {
        "&gt;"@
    } else if c == '"' {
        "&quot;"@
    } else if c == '\'' {
        "&#39;"@
    } else {
        seq![c]
    }
}

/// A string with every HTML-special character replaced by its entity.
pub open spec fn spec_html_escape(s: Seq<char>) -> Seq<char>
    decreases s.len(),
{
    if s.len() == 0 {
        Seq::empty()
    } else {
        escape_char(s.first()) + spec_html_escape(s.drop_first())
    }
}

proof fn lemma_html_escape_push(s: Seq<char>, c: char)
    ensures
        spec_html_escape(s.push(c)) == spec_html_escape(s) + escape_char(c),
    decreases s.len(),
{
    if s.len() == 0 {
        assert(s.push(c).first() == c);
        assert(s.push(c).drop_first() =~= Seq::<char>::empty());
        assert(spec_html_escape(Seq::<char>::empty()) == Seq::<char>::empty());
        assert(spec_html_escape(s) == Seq::<char>::empty());
        assert(spec_html_escape(s.push(c)) == escape_char(c) + Seq::<char>::empty());
        assert(spec_html_escape(s.push(c)) =~= spec_html_escape(s) + escape_char(c));
    } else {
        assert(s.push(c).first() == s.first());
        assert(s.push(c).drop_first() =~= s.drop_first().push(c));
        lemma_html_escape_push(s.drop_first(), c);
        assert(spec_html_escape(s.push(c)) =~= spec_html_escape(s) + escape_char(c));
    }
}

/// Escapes `&`, `<`, `>`, `"` and `'` for safe embedding in HTML text.
pub fn html_escape(s: &str) -> (r: String)
    ensures
        r@ == spec_html_escape(s@),
{
    let n = s.unicode_len();
    let mut r = String::new();
    let mut i: usize = 0;
    while i < n
        invariant
            i <= n,
            n == s@.len(),
            r@ == spec_html_escape(s@.take(i as int)),
        decreases n - i,
    {
        let c = s.get_char(i);
        if c == '&' {
            r.append("&amp;");
        } else if c == '<' {
            r.append("&lt;");
        } else if c == '>' {
            r.append("&gt;");
        } else if c == '"' {
            r.append("&quot;");
        } else if c == '\'' {
            r.append("&#39;");
        } else {
            let piece = s.substring_char(i, i + 1);
            proof {
                assert(piece@ =~= seq![s@[i as int]]);
            }
            r.append(piece);
        }
        proof {
            lemma_html_escape_push(s@.take(i as int), s@[i as int]);
            assert(s@.take(i as int).push(s@[i as int]) =~= s@.take(i as int + 1));
        }
        i += 1;
    }
    proof {
        assert(s@.take(n as int) =~= s@);
    }
    r
}

/// Whether a bearer token equals the fixed expected value.
pub fn valid(token: &str) -> (r: bool)
    ensures
        r == (token@ == "some_token"@),
{
    str_eq(token, "some_token")
}

} // verus!
