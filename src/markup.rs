use vstd::prelude::*;
use crate::html::tag_free;
use crate::text::{ascii_lowercase, chars_of, lower, occurs_at, push_char};

verus! {

/// Whitespace between words and around a text.
pub open spec fn is_space(c: char) -> bool {
    c == ' ' || c == '\n' || c == '\t' || c == '\r'
}

/// The first position at or after `i` that holds no whitespace.
pub open spec fn lead_from(s: Seq<char>, i: int) -> int
    decreases s.len() - i,
{
    if 0 <= i < s.len() && is_space(s[i]) {
        lead_from(s, i + 1)
    } else {
        i
    }
}

/// The end of `s.subrange(lo, j)` once trailing whitespace is dropped.
pub open spec fn trail_from(s: Seq<char>, j: int, lo: int) -> int
    decreases j - lo,
{
    if lo < j <= s.len() && is_space(s[j - 1]) {
        trail_from(s, j - 1, lo)
    } else {
        j
    }
}

/// A text without leading and trailing whitespace.
pub open spec fn trim(s: Seq<char>) -> Seq<char> {
    let a = lead_from(s, 0);
    s.subrange(a, trail_from(s, s.len() as int, a))
}

/// The text of `s` from position `i` on with every tag left out; `in_tag`
/// says whether position `i` lies inside a tag.
pub open spec fn strip_from(s: Seq<char>, i: int, in_tag: bool) -> Seq<char>
    decreases s.len() - i,
{
    if i < 0 || i >= s.len() {
        Seq::empty()
    } else if in_tag {
        strip_from(s, i + 1, s[i] != '>')
    } else if s[i] == '<' {
        strip_from(s, i + 1, true)
    } else {
        seq![s[i]] + strip_from(s, i + 1, false)
    }
}

/// A fragment of markup with its tags left out.
pub open spec fn strip_tags(s: Seq<char>) -> Seq<char> {
    strip_from(s, 0, false)
}

/// An opening tag named `tag` starts at position `i` of the lower-cased markup.
pub open spec fn opens_at(l: Seq<char>, tag: Seq<char>, i: int) -> bool {
    &&& occurs_at(l, seq!['<'] + tag, i)
    &&& i + tag.len() + 1 < l.len()
    &&& (l[i + tag.len() + 1] == '>' || is_space(l[i + tag.len() + 1]))
}

/// The first opening tag named `tag` at or after position `i`.
pub open spec fn first_open(l: Seq<char>, tag: Seq<char>, i: int) -> Option<int>
    decreases l.len() - i,
{
    if i < 0 || i >= l.len() {
        None
    } else if opens_at(l, tag, i) {
        Some(i)
    } else {
        first_open(l, tag, i + 1)
    }
}

/// The first occurrence of `n` in `h` at or after position `i`.
pub open spec fn first_occurrence(h: Seq<char>, n: Seq<char>, i: int) -> Option<int>
    decreases h.len() - i,
{
    if i < 0 || i >= h.len() {
        None
    } else if occurs_at(h, n, i) {
        Some(i)
    } else {
        first_occurrence(h, n, i + 1)
    }
}

/// The text of the first element named `tag` (a lower-case name): what lies
/// between its opening tag and the next closing tag of that name, tags left
/// out and whitespace trimmed. `None` where no such element is closed.
pub open spec fn element_text(html: Seq<char>, tag: Seq<char>) -> Option<Seq<char>> {
    let l = lower(html);
    match first_open(l, tag, 0) {
        None => None,
        Some(o) => match first_occurrence(l, seq!['>'], o) {
            None => None,
            Some(g) => match first_occurrence(l, "</"@ + tag + seq!['>'], g + 1) {
                None => None,
                Some(c) => Some(trim(strip_tags(html.subrange(g + 1, c)))),
            },
        },
    }
}

proof fn lemma_strip_from_tag_free(s: Seq<char>, i: int, in_tag: bool)
    ensures
        tag_free(strip_from(s, i, in_tag)),
    decreases s.len() - i,
{
    if 0 <= i < s.len() {
        if in_tag {
            lemma_strip_from_tag_free(s, i + 1, s[i] != '>');
        } else if s[i] == '<' {
            lemma_strip_from_tag_free(s, i + 1, true);
        } else {
            lemma_strip_from_tag_free(s, i + 1, false);
            let rest = strip_from(s, i + 1, false);
            assert forall|k: int| 0 <= k < (seq![s[i]] + rest).len() implies (seq![s[i]]
                + rest)[k] != '<' by {
                if k > 0 {
                    assert((seq![s[i]] + rest)[k] == rest[k - 1]);
                }
            }
        }
    }
}

proof fn lemma_lead_bound(s: Seq<char>, i: int)
    requires
        0 <= i <= s.len(),
    ensures
        i <= lead_from(s, i) <= s.len(),
    decreases s.len() - i,
{
    if i < s.len() && is_space(s[i]) {
        lemma_lead_bound(s, i + 1);
    }
}

proof fn lemma_trail_bound(s: Seq<char>, j: int, lo: int)
    requires
        lo <= j,
    ensures
        lo <= trail_from(s, j, lo) <= j,
    decreases j - lo,
{
    if lo < j <= s.len() && is_space(s[j - 1]) {
        lemma_trail_bound(s, j - 1, lo);
    }
}

/// The text of an element, with its tags left out, holds no `<`: markup in it
/// is escaped already, and it embeds as it stands.
pub proof fn lemma_element_text_tag_free(html: Seq<char>, tag: Seq<char>)
    ensures
        element_text(html, tag) matches Some(t) ==> tag_free(t),
{
    let l = lower(html);
    lemma_first_open_bound(l, tag, 0);
    if let Some(o) = first_open(l, tag, 0) {
        lemma_first_occurrence_bound(l, seq!['>'], o);
        if let Some(g) = first_occurrence(l, seq!['>'], o) {
            lemma_first_occurrence_bound(l, "</"@ + tag + seq!['>'], g + 1);
            if let Some(c) = first_occurrence(l, "</"@ + tag + seq!['>'], g + 1) {
                let st = strip_tags(html.subrange(g + 1, c));
                lemma_strip_from_tag_free(html.subrange(g + 1, c), 0, false);
                let a = lead_from(st, 0);
                lemma_lead_bound(st, 0);
                let b = trail_from(st, st.len() as int, a);
                lemma_trail_bound(st, st.len() as int, a);
                assert forall|k: int| 0 <= k < st.subrange(a, b).len() implies st.subrange(a, b)[k]
                    != '<' by {
                    assert(st.subrange(a, b)[k] == st[a + k]);
                }
            }
        }
    }
}

/// The characters `from..to` of `cs` as a string.
fn string_of(cs: &Vec<char>, from: usize, to: usize) -> (r: String)
    requires
        from <= to <= cs.len(),
    ensures
        r@ == cs@.subrange(from as int, to as int),
{
    let mut r = String::new();
    let mut i: usize = from;
    while i < to
        invariant
            from <= i <= to <= cs.len(),
            r@ =~= cs@.subrange(from as int, i as int),
        decreases to - i,
    {
        push_char(&mut r, cs[i]);
        i = i + 1;
    }
    r
}

fn is_space_exec(c: char) -> (r: bool)
    ensures
        r == is_space(c),
{
    c == ' ' || c == '\n' || c == '\t' || c == '\r'
}

fn trim_chars(cs: &Vec<char>) -> (r: String)
    ensures
        r@ == trim(cs@),
{
    let mut a: usize = 0;
    while a < cs.len() && is_space_exec(cs[a])
        invariant
            a <= cs.len(),
            lead_from(cs@, a as int) == lead_from(cs@, 0),
        decreases cs.len() - a,
    {
        a = a + 1;
    }
    let mut b: usize = cs.len();
    while b > a && is_space_exec(cs[b - 1])
        invariant
            a <= b <= cs.len(),
            a == lead_from(cs@, 0),
            trail_from(cs@, b as int, a as int) == trail_from(cs@, cs.len() as int, a as int),
        decreases b - a,
    {
        b = b - 1;
    }
    string_of(cs, a, b)
}

/// A text without leading and trailing whitespace.
pub fn trim_text(s: &str) -> (r: String)
    ensures
        r@ == trim(s@),
{
    let cs = chars_of(s);
    trim_chars(&cs)
}

fn strip_chars(cs: &Vec<char>, from: usize, to: usize) -> (r: Vec<char>)
    requires
        from <= to <= cs.len(),
    ensures
        r@ == strip_tags(cs@.subrange(from as int, to as int)),
{
    let ghost s = cs@.subrange(from as int, to as int);
    let mut r: Vec<char> = Vec::new();
    let mut in_tag = false;
    let mut i: usize = from;
    while i < to
        invariant
            from <= i <= to <= cs.len(),
            s == cs@.subrange(from as int, to as int),
            r@ + strip_from(s, i - from, in_tag) == strip_tags(s),
        decreases to - i,
    {
        let c = cs[i];
        let ghost k = i - from;
        let ghost rest = strip_from(s, k + 1, false);
        assert(s[k] == c);
        if in_tag {
            in_tag = c != '>';
        } else if c == '<' {
            in_tag = true;
        } else {
            proof {
                assert(strip_from(s, k, false) == seq![c] + rest);
                assert(r@.push(c) + rest =~= r@ + (seq![c] + rest));
            }
            r.push(c);
        }
        i = i + 1;
    }
    r
}

/// A fragment of markup with its tags left out.
pub fn strip_tags_text(s: &str) -> (r: String)
    ensures
        r@ == strip_tags(s@),
{
    let cs = chars_of(s);
    let stripped = strip_chars(&cs, 0, cs.len());
    assert(cs@.subrange(0, cs.len() as int) =~= s@);
    string_of(&stripped, 0, stripped.len())
}

fn opens_at_exec(l: &Vec<char>, tag: &Vec<char>, i: usize) -> (r: bool)
    requires
        i < l.len(),
    ensures
        r == opens_at(l@, tag@, i as int),
{
    if tag.len() >= l.len() - i - 1 {
        return false;
    }
    if l[i] != '<' {
        assert(l@.subrange(i as int, i + tag.len() + 1)[0] != (seq!['<'] + tag@)[0]);
        return false;
    }
    let mut j: usize = 0;
    while j < tag.len()
        invariant
            i + tag.len() + 1 < l.len(),
            l@[i as int] == '<',
            j <= tag.len(),
            forall|k: int| 0 <= k < j ==> l@[i + 1 + k] == tag@[k],
        decreases tag.len() - j,
    {
        if l[i + 1 + j] != tag[j] {
            assert(l@.subrange(i as int, i + tag.len() + 1)[j + 1] != (seq!['<'] + tag@)[j + 1]);
            return false;
        }
        j = j + 1;
    }
    assert(l@.subrange(i as int, i + tag.len() + 1) =~= seq!['<'] + tag@);
    let c = l[i + tag.len() + 1];
    c == '>' || is_space_exec(c)
}

pub(crate) fn occurs_at_exec(h: &Vec<char>, n: &Vec<char>, i: usize) -> (r: bool)
    requires
        i <= h.len(),
    ensures
        r == occurs_at(h@, n@, i as int),
{
    if h.len() - i < n.len() {
        return false;
    }
    let mut j: usize = 0;
    while j < n.len()
        invariant
            i + n.len() <= h.len(),
            j <= n.len(),
            forall|k: int| 0 <= k < j ==> h@[i + k] == n@[k],
        decreases n.len() - j,
    {
        if h[i + j] != n[j] {
            assert(h@.subrange(i as int, i + n.len())[j as int] != n@[j as int]);
            return false;
        }
        j = j + 1;
    }
    assert(h@.subrange(i as int, i + n.len()) =~= n@);
    true
}

fn first_open_exec(l: &Vec<char>, tag: &Vec<char>) -> (r: Option<usize>)
    ensures
        r is None <==> first_open(l@, tag@, 0) is None,
        r matches Some(o) ==> first_open(l@, tag@, 0) == Some(o as int),
{
    let mut i: usize = 0;
    while i < l.len()
        invariant
            i <= l.len(),
            first_open(l@, tag@, i as int) == first_open(l@, tag@, 0),
        decreases l.len() - i,
    {
        if opens_at_exec(l, tag, i) {
            return Some(i);
        }
        i = i + 1;
    }
    None
}

pub(crate) fn first_occurrence_exec(h: &Vec<char>, n: &Vec<char>, from: usize) -> (r: Option<usize>)
    ensures
        r is None <==> first_occurrence(h@, n@, from as int) is None,
        r matches Some(o) ==> first_occurrence(h@, n@, from as int) == Some(o as int),
{
    let mut i: usize = from;
    while i < h.len()
        invariant
            from <= i,
            first_occurrence(h@, n@, i as int) == first_occurrence(h@, n@, from as int),
        decreases h.len() - i,
    {
        if occurs_at_exec(h, n, i) {
            return Some(i);
        }
        i = i + 1;
    }
    None
}

proof fn lemma_first_open_bound(l: Seq<char>, tag: Seq<char>, i: int)
    ensures
        first_open(l, tag, i) is Some ==> i <= first_open(l, tag, i)->0 < l.len(),
    decreases l.len() - i,
{
    if 0 <= i < l.len() && !opens_at(l, tag, i) {
        lemma_first_open_bound(l, tag, i + 1);
    }
}

pub(crate) proof fn lemma_first_occurrence_bound(h: Seq<char>, n: Seq<char>, i: int)
    ensures
        first_occurrence(h, n, i) is Some ==> i <= first_occurrence(h, n, i)->0 < h.len(),
    decreases h.len() - i,
{
    if 0 <= i < h.len() && !occurs_at(h, n, i) {
        lemma_first_occurrence_bound(h, n, i + 1);
    }
}

/// The text of the first element named `tag` (given in lower case).
pub fn first_element_text(html: &str, tag: &str) -> (r: Option<String>)
    ensures
        match element_text(html@, tag@) {
            None => r is None,
            Some(t) => r matches Some(x) && x@ == t,
        },
{
    let cs = chars_of(html);
    let low = ascii_lowercase(html);
    let l = chars_of(low.as_str());
    let mut close_tag = String::from_str("</");
    close_tag.append(tag);
    close_tag.append(">");
    let close = chars_of(close_tag.as_str());
    let t = chars_of(tag);
    let gt = chars_of(">");
    proof {
        reveal_strlit(">");
        assert(gt@ =~= seq!['>']);
        assert(close@ =~= "</"@ + tag@ + seq!['>']);
        lemma_first_open_bound(l@, tag@, 0);
    }
    let o = match first_open_exec(&l, &t) {
        Some(o) => o,
        None => return None,
    };
    proof {
        lemma_first_occurrence_bound(l@, gt@, o as int);
    }
    let g = match first_occurrence_exec(&l, &gt, o) {
        Some(g) => g,
        None => return None,
    };
    let ln = l.len();
    assert(g < ln);
    proof {
        lemma_first_occurrence_bound(l@, close@, g + 1);
    }
    let c = match first_occurrence_exec(&l, &close, g + 1) {
        Some(c) => c,
        None => return None,
    };
    let stripped = strip_chars(&cs, g + 1, c);
    Some(trim_chars(&stripped))
}

} // verus!
