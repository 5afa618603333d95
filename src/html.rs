use vstd::prelude::*;
use crate::text::{chars_of, push_char};

verus! {

/// How one character is written inside HTML text or a quoted attribute.
pub open spec fn escape_char(c: char) -> Seq<char> {
    if c == '&' {
        "&amp;"@
    } else if c == '<' {
        "&lt;"@
    } else if c == '>' {
        "&gt;"@
    } else if c == '"' {
        "&quot;"@
    } else if c == '\'' {
        "&#x27;"@
    } else {
        seq![c]
    }
}

/// A text with every markup character replaced by its entity.
pub open spec fn escaped(s: Seq<char>) -> Seq<char>
    decreases s.len(),
{
    if s.len() == 0 {
        Seq::empty()
    } else {
        escaped(s.drop_last()) + escape_char(s.last())
    }
}

/// A text holds no `<`, so it cannot open a tag where it is embedded.
pub open spec fn tag_free(t: Seq<char>) -> bool {
    forall|k: int| 0 <= k < t.len() ==> t[k] != '<'
}

/// Escaped text holds no `<`.
pub proof fn lemma_escaped_tag_free(s: Seq<char>)
    ensures
        tag_free(escaped(s)),
    decreases s.len(),
{
    if s.len() > 0 {
        lemma_escaped_tag_free(s.drop_last());
        let c = s.last();
        reveal_strlit("&amp;");
        reveal_strlit("&lt;");
        reveal_strlit("&gt;");
        reveal_strlit("&quot;");
        reveal_strlit("&#x27;");
        let a = escaped(s.drop_last());
        let b = escape_char(c);
        assert(tag_free(b));
        assert forall|k: int| 0 <= k < (a + b).len() implies (a + b)[k] != '<' by {
            if k >= a.len() {
                assert((a + b)[k] == b[k - a.len()]);
            } else {
                assert((a + b)[k] == a[k]);
            }
        }
    }
}

/// Appends `c` to `out` as it is written inside HTML.
fn push_escaped(out: &mut String, c: char)
    ensures
        final(out)@ == old(out)@ + escape_char(c),
{
    if c == '&' {
        out.append("&amp;");
    } else if c == '<' {
        out.append("&lt;");
    } else if c == '>' {
        out.append("&gt;");
    } else if c == '"' {
        out.append("&quot;");
    } else if c == '\'' {
        out.append("&#x27;");
    } else {
        push_char(out, c);
        assert(final(out)@ =~= old(out)@ + seq![c]);
    }
}

/// Appends the escaped form of `s` to `out`.
pub fn append_escaped(out: &mut String, s: &str)
    ensures
        final(out)@ == old(out)@ + escaped(s@),
{
    let cs = chars_of(s);
    let ghost start = out@;
    let mut i: usize = 0;
    while i < cs.len()
        invariant
            cs@ == s@,
            i <= cs.len(),
            out@ == start + escaped(s@.take(i as int)),
        decreases cs.len() - i,
    {
        push_escaped(out, cs[i]);
        proof {
            let t = s@.take(i + 1);
            assert(t.drop_last() =~= s@.take(i as int));
            assert(t.last() == s@[i as int]);
        }
        i = i + 1;
    }
    assert(s@.take(i as int) =~= s@);
}

/// The escaped form of `s`, safe to embed as HTML text or attribute value.
pub fn escape_html(s: &str) -> (r: String)
    ensures
        r@ == escaped(s@),
{
    let mut r = String::new();
    append_escaped(&mut r, s);
    assert(r@ =~= escaped(s@));
    r
}

} // verus!
