use vstd::prelude::*;
use crate::markup::{
    first_occurrence, first_occurrence_exec, lemma_first_occurrence_bound, occurs_at_exec,
};
use crate::text::{chars_of, occurs_at};

verus! {

/// The deepest nesting of elements that a feed document may have to be handed
/// to the feed reader, which recurses once per level of nested extension
/// elements.
pub const MAX_FEED_NESTING: usize = 64;

/// The first `>` at or after position `j` that stands outside quotes, `q`
/// being the quote open at `j` (a space for none). This is how the XML reader
/// finds the end of a tag.
pub open spec fn tag_close(s: Seq<char>, j: int, q: char) -> Option<int>
    decreases s.len() - j,
{
    if j < 0 || j >= s.len() {
        None
    } else if q == ' ' {
        if s[j] == '>' {
            Some(j)
        } else if s[j] == '"' || s[j] == '\'' {
            tag_close(s, j + 1, s[j])
        } else {
            tag_close(s, j + 1, ' ')
        }
    } else {
        tag_close(s, j + 1, if s[j] == q { ' ' } else { q })
    }
}

/// The first `>` of a document type declaration from position `j` on, outside
/// quotes; `None` where it opens an internal subset or is never closed.
pub open spec fn doctype_close(s: Seq<char>, j: int, q: char) -> Option<int>
    decreases s.len() - j,
{
    if j < 0 || j >= s.len() {
        None
    } else if q == ' ' {
        if s[j] == '>' {
            Some(j)
        } else if s[j] == '[' {
            None
        } else if s[j] == '"' || s[j] == '\'' {
            doctype_close(s, j + 1, s[j])
        } else {
            doctype_close(s, j + 1, ' ')
        }
    } else {
        doctype_close(s, j + 1, if s[j] == q { ' ' } else { q })
    }
}

/// The value that stands for a document whose nesting is not measured: more
/// than any document is handed to the reader with.
pub open spec fn unmeasured() -> nat {
    (MAX_FEED_NESTING + 1) as nat
}

/// The deepest count of open elements that the XML reader reaches in `s` from
/// position `i` on, `depth` elements being open there and `deepest` the most
/// so far. Comments, character data, processing instructions and a document
/// type declaration are passed over as the reader passes over them; a start
/// tag opens an element unless it closes itself with `/>`; an end tag closes
/// one. Where the reader would stop on malformed markup, so does the count.
pub open spec fn xml_from(s: Seq<char>, i: int, depth: nat, deepest: nat) -> nat
    decreases s.len() - i,
{
    if i < 0 || i >= s.len() {
        deepest
    } else if s[i] != '<' {
        xml_from(s, i + 1, depth, deepest)
    } else if i + 1 >= s.len() {
        deepest
    } else if s[i + 1] == '!' {
        if occurs_at(s, "<![CDATA["@, i) {
            match first_occurrence(s, "]]>"@, i + 3) {
                Some(k) => if i < k && k + 3 <= s.len() {
                    xml_from(s, k + 3, depth, deepest)
                } else {
                    deepest
                },
                None => deepest,
            }
        } else if i + 2 < s.len() && s[i + 2] == '-' {
            match first_occurrence(s, "-->"@, i + 4) {
                Some(k) => if i < k && k + 3 <= s.len() {
                    xml_from(s, k + 3, depth, deepest)
                } else {
                    deepest
                },
                None => deepest,
            }
        } else if i + 2 < s.len() && (s[i + 2] == 'D' || s[i + 2] == 'd') {
            match doctype_close(s, i + 2, ' ') {
                Some(k) => if i < k && k < s.len() {
                    xml_from(s, k + 1, depth, deepest)
                } else {
                    deepest
                },
                None => unmeasured(),
            }
        } else {
            unmeasured()
        }
    } else if s[i + 1] == '?' {
        match first_occurrence(s, "?>"@, i + 1) {
            Some(k) => if i < k && k + 2 <= s.len() {
                xml_from(s, k + 2, depth, deepest)
            } else {
                deepest
            },
            None => deepest,
        }
    } else if s[i + 1] == '/' {
        match tag_close(s, i + 1, ' ') {
            Some(k) => if i < k && k < s.len() {
                xml_from(s, k + 1, if depth > 0 { (depth - 1) as nat } else { 0 }, deepest)
            } else {
                deepest
            },
            None => deepest,
        }
    } else {
        match tag_close(s, i + 1, ' ') {
            Some(k) => if i < k && k < s.len() {
                if s[k - 1] == '/' {
                    xml_from(s, k + 1, depth, deepest)
                } else {
                    xml_from(
                        s,
                        k + 1,
                        depth + 1,
                        if depth + 1 > deepest { (depth + 1) as nat } else { deepest },
                    )
                }
            } else {
                deepest
            },
            None => deepest,
        }
    }
}

/// How deep the elements of a feed document nest, as the XML reader reads it.
pub open spec fn xml_nesting(xml: Seq<char>) -> nat {
    xml_from(xml, 0, 0, 0)
}

proof fn lemma_tag_close_bound(s: Seq<char>, j: int, q: char)
    ensures
        tag_close(s, j, q) is Some ==> j <= tag_close(s, j, q)->0 < s.len(),
    decreases s.len() - j,
{
    if 0 <= j < s.len() {
        if q == ' ' {
            if s[j] != '>' {
                if s[j] == '"' || s[j] == '\'' {
                    lemma_tag_close_bound(s, j + 1, s[j]);
                } else {
                    lemma_tag_close_bound(s, j + 1, ' ');
                }
            }
        } else {
            lemma_tag_close_bound(s, j + 1, if s[j] == q { ' ' } else { q });
        }
    }
}

proof fn lemma_doctype_close_bound(s: Seq<char>, j: int, q: char)
    ensures
        doctype_close(s, j, q) is Some ==> j <= doctype_close(s, j, q)->0 < s.len(),
    decreases s.len() - j,
{
    if 0 <= j < s.len() {
        if q == ' ' {
            if s[j] != '>' && s[j] != '[' {
                if s[j] == '"' || s[j] == '\'' {
                    lemma_doctype_close_bound(s, j + 1, s[j]);
                } else {
                    lemma_doctype_close_bound(s, j + 1, ' ');
                }
            }
        } else {
            lemma_doctype_close_bound(s, j + 1, if s[j] == q { ' ' } else { q });
        }
    }
}

fn tag_close_exec(s: &Vec<char>, from: usize) -> (r: Option<usize>)
    ensures
        r is None <==> tag_close(s@, from as int, ' ') is None,
        r matches Some(k) ==> tag_close(s@, from as int, ' ') == Some(k as int),
{
    proof {
        lemma_tag_close_bound(s@, from as int, ' ');
    }
    let mut j: usize = from;
    let mut q: char = ' ';
    while j < s.len()
        invariant
            from <= j,
            tag_close(s@, j as int, q) == tag_close(s@, from as int, ' '),
        decreases s.len() - j,
    {
        let c = s[j];
        if q == ' ' {
            if c == '>' {
                return Some(j);
            } else if c == '"' || c == '\'' {
                q = c;
            }
        } else if c == q {
            q = ' ';
        }
        j = j + 1;
    }
    None
}

fn doctype_close_exec(s: &Vec<char>, from: usize) -> (r: Option<usize>)
    ensures
        r is None <==> doctype_close(s@, from as int, ' ') is None,
        r matches Some(k) ==> doctype_close(s@, from as int, ' ') == Some(k as int),
{
    let mut j: usize = from;
    let mut q: char = ' ';
    while j < s.len()
        invariant
            from <= j,
            doctype_close(s@, j as int, q) == doctype_close(s@, from as int, ' '),
        decreases s.len() - j,
    {
        let c = s[j];
        if q == ' ' {
            if c == '>' {
                return Some(j);
            } else if c == '[' {
                return None;
            } else if c == '"' || c == '\'' {
                q = c;
            }
        } else if c == q {
            q = ' ';
        }
        j = j + 1;
    }
    None
}

/// How deep the elements of a feed document nest, as the XML reader reads it.
pub fn feed_nesting(xml: &str) -> (r: usize)
    ensures
        r == xml_nesting(xml@),
{
    let s = chars_of(xml);
    let cdata = chars_of("<![CDATA[");
    let cdata_end = chars_of("]]>");
    let comment_end = chars_of("-->");
    let pi_end = chars_of("?>");
    let ghost total = xml_nesting(xml@);
    let mut depth: usize = 0;
    let mut deepest: usize = 0;
    let mut i: usize = 0;
    let n = s.len();
    while i < n
        invariant
            n == s.len(),
            s@ == xml@,
            cdata@ == "<![CDATA["@,
            cdata_end@ == "]]>"@,
            comment_end@ == "-->"@,
            pi_end@ == "?>"@,
            total == xml_nesting(xml@),
            depth <= i,
            deepest <= i,
            i <= s.len(),
            xml_from(s@, i as int, depth as nat, deepest as nat) == total,
        decreases s.len() - i,
    {
        if s[i] != '<' {
            i = i + 1;
        } else if s.len() - i < 2 {
            return deepest;
        } else if s[i + 1] == '!' {
            if occurs_at_exec(&s, &cdata, i) {
                if n - i <= 3 {
                    return deepest;
                }
                proof {
                    lemma_first_occurrence_bound(s@, cdata_end@, i + 3);
                }
                match first_occurrence_exec(&s, &cdata_end, i + 3) {
                    Some(k) => {
                        if i < k && k < n && n - k >= 3 {
                            i = k + 3;
                        } else {
                            return deepest;
                        }
                    },
                    None => return deepest,
                }
            } else if s.len() - i > 2 && s[i + 2] == '-' {
                if n - i <= 4 {
                    return deepest;
                }
                proof {
                    lemma_first_occurrence_bound(s@, comment_end@, i + 4);
                }
                match first_occurrence_exec(&s, &comment_end, i + 4) {
                    Some(k) => {
                        if i < k && k < n && n - k >= 3 {
                            i = k + 3;
                        } else {
                            return deepest;
                        }
                    },
                    None => return deepest,
                }
            } else if s.len() - i > 2 && (s[i + 2] == 'D' || s[i + 2] == 'd') {
                proof {
                    lemma_doctype_close_bound(s@, i + 2, ' ');
                }
                match doctype_close_exec(&s, i + 2) {
                    Some(k) => {
                        if i < k && k < n {
                            i = k + 1;
                        } else {
                            return deepest;
                        }
                    },
                    None => return MAX_FEED_NESTING + 1,
                }
            } else {
                return MAX_FEED_NESTING + 1;
            }
        } else if s[i + 1] == '?' {
            proof {
                lemma_first_occurrence_bound(s@, pi_end@, i + 1);
            }
            match first_occurrence_exec(&s, &pi_end, i + 1) {
                Some(k) => {
                    if i < k && k < n && n - k >= 2 {
                        i = k + 2;
                    } else {
                        return deepest;
                    }
                },
                None => return deepest,
            }
        } else if s[i + 1] == '/' {
            proof {
                lemma_tag_close_bound(s@, i + 1, ' ');
            }
            match tag_close_exec(&s, i + 1) {
                Some(k) => {
                    if !(i < k && k < n) {
                        return deepest;
                    }
                    if depth > 0 {
                        depth = depth - 1;
                    }
                    i = k + 1;
                },
                None => return deepest,
            }
        } else {
            proof {
                lemma_tag_close_bound(s@, i + 1, ' ');
            }
            match tag_close_exec(&s, i + 1) {
                Some(k) => {
                    if !(i < k && k < n) {
                        return deepest;
                    }
                    if s[k - 1] != '/' {
                        depth = depth + 1;
                        if depth > deepest {
                            deepest = depth;
                        }
                    }
                    i = k + 1;
                },
                None => return deepest,
            }
        }
    }
    deepest
}

} // verus!
