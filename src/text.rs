use vstd::prelude::*;

verus! {

/// The ASCII lower-case form of one character; other characters are kept.
pub open spec fn lower_char(c: char) -> char {
    if 'A' <= c && c <= 'Z' {
        ((c as u32) + 32) as char
    } else {
        c
    }
}

/// The ASCII lower-case form of a text.
pub open spec fn lower(s: Seq<char>) -> Seq<char> {
    s.map_values(|c: char| lower_char(c))
}

/// `needle` occurs in `hay` starting at position `i`.
pub open spec fn occurs_at(hay: Seq<char>, needle: Seq<char>, i: int) -> bool {
    0 <= i && i + needle.len() <= hay.len() && hay.subrange(i, i + needle.len()) == needle
}

/// `needle` occurs somewhere in `hay`.
pub open spec fn contains(hay: Seq<char>, needle: Seq<char>) -> bool {
    exists|i: int| occurs_at(hay, needle, i)
}

/// Relies on `String::push`: the character is appended at the end.
#[verifier::external_body]
pub(crate) fn push_char(s: &mut String, c: char)
    ensures
        final(s)@ == old(s)@.push(c),
{
    s.push(c)
}

/// The characters of a text, in order.
pub(crate) fn chars_of(s: &str) -> (r: Vec<char>)
    ensures
        r@ == s@,
{
    let mut r: Vec<char> = Vec::new();
    for c in it: s.chars()
        invariant
            it.seq() == s@,
            r@ == it.seq().take(it.index() as int),
    {
        r.push(c);
    }
    assert(r@ =~= s@);
    r
}

fn lower_one(c: char) -> (r: char)
    ensures
        r == lower_char(c),
{
    if 'A' <= c && c <= 'Z' {
        ((c as u8) + 32) as char
    } else {
        c
    }
}

/// Lower-cases the ASCII letters of a text.
pub fn ascii_lowercase(s: &str) -> (r: String)
    ensures
        r@ == lower(s@),
{
    let cs = chars_of(s);
    let mut r = String::new();
    let mut i: usize = 0;
    while i < cs.len()
        invariant
            cs@ == s@,
            i <= cs.len(),
            r@ =~= lower(s@).take(i as int),
        decreases cs.len() - i,
    {
        push_char(&mut r, lower_one(cs[i]));
        i = i + 1;
    }
    assert(r@ =~= lower(s@));
    r
}

fn occurs_at_exec(hay: &Vec<char>, needle: &Vec<char>, i: usize) -> (r: bool)
    requires
        i + needle.len() <= hay.len(),
    ensures
        r == occurs_at(hay@, needle@, i as int),
{
    let mut j: usize = 0;
    while j < needle.len()
        invariant
            i + needle.len() <= hay.len(),
            j <= needle.len(),
            forall|k: int| 0 <= k < j ==> hay@[i + k] == needle@[k],
        decreases needle.len() - j,
    {
        if hay[i + j] != needle[j] {
            assert(hay@.subrange(i as int, i + needle.len())[j as int] != needle@[j as int]);
            return false;
        }
        j = j + 1;
    }
    assert(hay@.subrange(i as int, i + needle.len()) =~= needle@);
    true
}

/// Whether `needle` occurs in `hay`.
pub fn contains_text(hay: &str, needle: &str) -> (r: bool)
    ensures
        r == contains(hay@, needle@),
{
    let h = chars_of(hay);
    let n = chars_of(needle);
    if n.len() > h.len() {
        return false;
    }
    let last: usize = h.len() - n.len();
    let mut i: usize = 0;
    while i <= last
        invariant
            h@ == hay@,
            n@ == needle@,
            last == h.len() - n.len(),
            forall|k: int| 0 <= k < i ==> !occurs_at(hay@, needle@, k),
        decreases last + 1 - i,
    {
        if occurs_at_exec(&h, &n, i) {
            return true;
        }
        if i == last {
            return false;
        }
        i = i + 1;
    }
    false
}

/// The decimal digit for `d < 10`.
pub open spec fn digit_char(d: nat) -> char {
    ((d + 48) as u8) as char
}

/// The decimal digits of a natural number, most significant first.
pub open spec fn digits(n: nat) -> Seq<char>
    decreases n,
{
    if n < 10 {
        seq![digit_char(n)]
    } else {
        digits(n / 10).push(digit_char(n % 10))
    }
}

/// The decimal form of an integer, with a leading minus sign when negative.
pub open spec fn decimal(n: int) -> Seq<char> {
    if n < 0 {
        seq!['-'] + digits((-n) as nat)
    } else {
        digits(n as nat)
    }
}

fn digits_exec(n: u64) -> (r: Vec<char>)
    ensures
        r@ == digits(n as nat),
    decreases n,
{
    if n < 10 {
        let c = ((n as u8) + 48) as char;
        vec![c]
    } else {
        let mut r = digits_exec(n / 10);
        let c = (((n % 10) as u8) + 48) as char;
        r.push(c);
        r
    }
}

/// The decimal form of `n`.
pub fn decimal_text(n: i64) -> (r: String)
    ensures
        r@ == decimal(n as int),
{
    let mut r = String::new();
    let magnitude: u64 = if n < 0 {
        if n == i64::MIN {
            9223372036854775808u64
        } else {
            (-n) as u64
        }
    } else {
        n as u64
    };
    if n < 0 {
        push_char(&mut r, '-');
    }
    let ds = digits_exec(magnitude);
    let ghost start = r@;
    let mut i: usize = 0;
    while i < ds.len()
        invariant
            i <= ds.len(),
            r@ == start + ds@.take(i as int),
        decreases ds.len() - i,
    {
        push_char(&mut r, ds[i]);
        assert(ds@.take(i + 1) =~= ds@.take(i as int).push(ds@[i as int]));
        i = i + 1;
    }
    assert(ds@.take(i as int) =~= ds@);
    assert(r@ =~= decimal(n as int));
    r
}

} // verus!
