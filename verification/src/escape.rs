//! Replaces the characters that markup reserves by their entities.

use crate::text::push_char;
use vstd::prelude::*;
use vstd::string::StringExecFns;

verus! {

/// What stands for one character in markup: its entity for a quote, an
/// apostrophe, an angle bracket or an ampersand, the character itself
/// otherwise.
pub open spec fn escaped_char(c: char) -> Seq<char> {
    if c == '"' {
        "&quot;"@
    } else if c == '\'' {
        "&apos;"@
    } else if c == '<' {
        "&lt;"@
    } else if c == '>' {
        "&gt;"@
    } else if c == '&' {
        "&amp;"@
    } else {
        seq![c]
    }
}

/// What stands for a text in markup: what stands for its characters, in
/// their order.
pub open spec fn escaped(s: Seq<char>) -> Seq<char>
    decreases s.len(),
{
    if s.len() == 0 {
        Seq::empty()
    } else {
        escaped(s.drop_last()) + escaped_char(s.last())
    }
}

/// The text holds no quote, apostrophe or angle bracket.
pub open spec fn markup_free(s: Seq<char>) -> bool {
    forall|i: int|
        0 <= i < s.len() ==> {
            let c = #[trigger] s[i];
            c != '"' && c != '\'' && c != '<' && c != '>'
        }
}

/// What stands for a character holds no quote, apostrophe or angle bracket.
pub proof fn lemma_escaped_char_markup_free(c: char)
    ensures
        markup_free(escaped_char(c)),
        escaped_char(c).len() >= 1,
{
    reveal_strlit("&quot;");
    reveal_strlit("&apos;");
    reveal_strlit("&lt;");
    reveal_strlit("&gt;");
    reveal_strlit("&amp;");
}

/// Escaped text holds no quote, apostrophe or angle bracket, and is at
/// least as long as the text it stands for.
pub proof fn lemma_escaped_markup_free(s: Seq<char>)
    ensures
        markup_free(escaped(s)),
        escaped(s).len() >= s.len(),
    decreases s.len(),
{
    if s.len() > 0 {
        lemma_escaped_markup_free(s.drop_last());
        lemma_escaped_char_markup_free(s.last());
        let a = escaped(s.drop_last());
        let b = escaped_char(s.last());
        assert forall|i: int| 0 <= i < (a + b).len() implies {
            let c = #[trigger] (a + b)[i];
            c != '"' && c != '\'' && c != '<' && c != '>'
        } by {
            if i < a.len() {
                assert((a + b)[i] == a[i]);
            } else {
                assert((a + b)[i] == b[i - a.len()]);
            }
        }
    }
}

/// Escaping goes through a concatenation part by part.
pub proof fn lemma_escaped_concat(a: Seq<char>, b: Seq<char>)
    ensures
        escaped(a + b) == escaped(a) + escaped(b),
    decreases b.len(),
{
    if b.len() == 0 {
        assert(a + b =~= a);
        assert(escaped(a) + escaped(b) =~= escaped(a));
    } else {
        lemma_escaped_concat(a, b.drop_last());
        assert((a + b).drop_last() =~= a + b.drop_last());
        assert(escaped(a + b) =~= escaped(a) + escaped(b));
    }
}

/// What stands for one character in markup.
pub fn escape_char(ch: &char) -> (quoted: String)
    ensures
        quoted@ == escaped_char(*ch),
{
    let c = *ch;
    if c == '"' {
        String::from_str("&quot;")
    } else if c == '\'' {
        String::from_str("&apos;")
    } else if c == '<' {
        String::from_str("&lt;")
    } else if c == '>' {
        String::from_str("&gt;")
    } else if c == '&' {
        String::from_str("&amp;")
    } else {
        let mut s = String::new();
        push_char(&mut s, c);
        assert(s@ =~= seq![c]);
        s
    }
}

/// What stands for a text in markup.
pub fn escape_str(s: &str) -> (escaped_text: String)
    ensures
        escaped_text@ == escaped(s@),
        markup_free(escaped_text@),
{
    let mut escaped_text = String::new();
    for c in it: s.chars()
        invariant
            it.seq() == s@,
            escaped_text@ == escaped(s@.take(it.index())),
    {
        proof {
            let n = it.index();
            assert(s@.take(n + 1).drop_last() =~= s@.take(n));
        }
        escaped_text.append(escape_char(&c).as_str());
    }
    proof {
        assert(s@.take(s@.len() as int) =~= s@);
        lemma_escaped_markup_free(s@);
    }
    escaped_text
}

} // verus!
