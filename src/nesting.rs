use vstd::prelude::*;
use crate::markup::{first_occurrence, first_occurrence_exec, lemma_first_occurrence_bound, occurs_at_exec};
use crate::text::{ascii_lowercase, chars_of, lower, occurs_at};

verus! {

/// The deepest nesting of elements that a page may have to be handed to the
/// extractor, which recurses once per level.
pub const MAX_NESTING: usize = 256;

/// Whitespace inside a tag.
pub open spec fn is_tag_space(c: char) -> bool {
    c == ' ' || c == '\t' || c == '\n' || c == '\r' || c == '\x0c'
}

/// A character that continues a tag name.
pub open spec fn is_name_char(c: char) -> bool {
    !is_tag_space(c) && c != '/' && c != '>'
}

/// Where the tag name starting at position `j` ends.
pub open spec fn name_end(l: Seq<char>, j: int) -> int
    decreases l.len() - j,
{
    if 0 <= j < l.len() && is_name_char(l[j]) {
        name_end(l, j + 1)
    } else {
        j
    }
}

/// The state of the HTML tokenizer inside a tag after `c`, or 10 where `c`
/// ends the tag: 0 tag name, 1 before an attribute name, 2 attribute name,
/// 3 after it, 4 before a value, 5 and 6 in a double- or single-quoted value,
/// 7 in an unquoted value, 8 after a quoted value, 9 self-closing.
pub open spec fn tag_step(st: u8, c: char) -> u8 {
    if st == 5 {
        if c == '"' { 8 } else { 5 }
    } else if st == 6 {
        if c == '\'' { 8 } else { 6 }
    } else if c == '>' {
        10
    } else if st == 7 {
        if is_tag_space(c) { 1 } else { 7 }
    } else if st == 4 {
        if is_tag_space(c) {
            4
        } else if c == '"' {
            5
        } else if c == '\'' {
            6
        } else {
            7
        }
    } else if is_tag_space(c) {
        if st == 2 || st == 3 { 3 } else if st == 0 { 1 } else { 1 }
    } else if c == '/' {
        9
    } else if st == 0 {
        0
    } else if c == '=' && (st == 2 || st == 3) {
        4
    } else {
        2
    }
}

/// The `>` that ends a tag whose name ends at `j`, the tokenizer being in
/// state `st` there; `None` where the document ends first.
pub open spec fn tag_finish(l: Seq<char>, j: int, st: u8) -> Option<int>
    decreases l.len() - j,
{
    if j < 0 || j >= l.len() {
        None
    } else if tag_step(st, l[j]) == 10 {
        Some(j)
    } else {
        tag_finish(l, j + 1, tag_step(st, l[j]))
    }
}

/// An element that never holds others.
pub open spec fn void_name(n: Seq<char>) -> bool {
    n == "area"@ || n == "base"@ || n == "br"@ || n == "col"@ || n == "embed"@ || n == "hr"@
        || n == "img"@ || n == "input"@ || n == "link"@ || n == "meta"@ || n == "param"@
        || n == "source"@ || n == "track"@ || n == "wbr"@
}

/// An element that a start tag of the same name closes when it is the
/// innermost open one.
pub open spec fn closes_same(n: Seq<char>) -> bool {
    n == "p"@ || n == "li"@ || n == "option"@ || n == "dt"@ || n == "dd"@ || n == "tr"@ || n
        == "td"@ || n == "th"@
}

/// An element whose content is text up to its own end tag.
pub open spec fn raw_text_name(n: Seq<char>) -> bool {
    n == "script"@ || n == "style"@ || n == "textarea"@ || n == "title"@ || n == "xmp"@ || n
        == "iframe"@ || n == "noembed"@ || n == "noframes"@ || n == "noscript"@
}

/// An element inside which raw-text elements are not read as such.
pub open spec fn foreign_name(n: Seq<char>) -> bool {
    n == "svg"@ || n == "math"@ || n == "select"@ || n == "frameset"@
}

/// An element that an end tag naming an element below it closes on the way.
pub open spec fn ordinary_name(n: Seq<char>) -> bool {
    n == "span"@ || n == "path"@ || n == "circle"@ || n == "rect"@ || n == "line"@ || n
        == "polyline"@ || n == "polygon"@ || n == "ellipse"@ || n == "use"@ || n == "stop"@ || n
        == "g"@ || n == "defs"@ || n == "symbol"@ || n == "lineargradient"@ || n
        == "radialgradient"@ || n == "clippath"@ || n == "mask"@ || n == "tspan"@ || n
        == "label"@ || n == "abbr"@ || n == "time"@ || n == "cite"@ || n == "mark"@ || n
        == "q"@ || n == "sub"@ || n == "sup"@ || n == "kbd"@ || n == "samp"@ || n == "var"@
        || n == "data"@ || n == "bdi"@
}

/// The open elements once an end tag naming `n` is read: down to and without
/// the innermost element named `n`, passing only ordinary elements; `None`
/// where the end tag closes nothing.
pub open spec fn pop_to(open: Seq<Seq<char>>, n: Seq<char>) -> Option<Seq<Seq<char>>>
    decreases open.len(),
{
    if open.len() == 0 {
        None
    } else if open.last() == n {
        Some(open.drop_last())
    } else if ordinary_name(open.last()) {
        pop_to(open.drop_last(), n)
    } else {
        None
    }
}

/// An end tag of the element named `g` starts at position `i`.
pub open spec fn ends_at(l: Seq<char>, g: Seq<char>, i: int) -> bool {
    &&& occurs_at(l, seq!['<', '/'] + g, i)
    &&& 0 <= i && i + 2 < l.len() && 'a' <= l[i + 2] && l[i + 2] <= 'z'
    &&& i + 2 + g.len() < l.len()
    &&& (is_tag_space(l[i + 2 + g.len()]) || l[i + 2 + g.len()] == '/' || l[i + 2 + g.len()]
        == '>')
}

/// The first end tag of the element named `g` at or after position `k`.
pub open spec fn raw_end(l: Seq<char>, g: Seq<char>, k: int) -> Option<int>
    decreases l.len() - k,
{
    if k < 0 || k >= l.len() {
        None
    } else if ends_at(l, g, k) {
        Some(k)
    } else {
        raw_end(l, g, k + 1)
    }
}

/// Where a comment that starts at `i` ends, or `None` where it runs to the end.
pub open spec fn comment_close(l: Seq<char>, i: int) -> Option<int> {
    if i + 4 < l.len() && l[i + 4] == '>' {
        Some(i + 5)
    } else if i + 5 < l.len() && l[i + 4] == '-' && l[i + 5] == '>' {
        Some(i + 6)
    } else {
        dash_close(l, i + 4)
    }
}

/// The position after the first `-->` or `--!>` at or after `k`.
pub open spec fn dash_close(l: Seq<char>, k: int) -> Option<int>
    decreases l.len() - k,
{
    if k < 0 || k >= l.len() {
        None
    } else if occurs_at(l, "-->"@, k) {
        Some(k + 3)
    } else if occurs_at(l, "--!>"@, k) {
        Some(k + 4)
    } else {
        dash_close(l, k + 1)
    }
}

/// The value that stands for a page whose nesting is not measured: more than
/// any page is handed to the extractor with.
pub open spec fn unmeasured() -> nat {
    (MAX_NESTING + 1) as nat
}

/// The nesting after a step that moves to `next` with `open` elements open.
pub open spec fn deeper(deepest: nat, open: Seq<Seq<char>>) -> nat {
    if open.len() > deepest {
        open.len()
    } else {
        deepest
    }
}

/// The deepest nesting reached in the lower-cased markup `l` from position `i`
/// on, given the names of the elements open there, the deepest nesting so far,
/// and, inside a raw-text element whose content may be markup, its name.
///
/// Tags end where the HTML tokenizer ends them, so quoted attribute values are
/// passed over; comments and other `<!`/`<?` markup are passed over. A start
/// tag opens an element unless it is void; one of `p`, `li`, … first closes an
/// innermost element of the same name. The content of a raw-text element is
/// passed over up to its end tag, unless a foreign, select or frameset element
/// is open: then its start tags are counted and other end tags ignored up to
/// its own end tag, which is read as an end tag. A script
/// that may hold a nested script is not measured. An end tag closes down to
/// the element it names through ordinary elements only, and never closes
/// `html` or `body`.
pub open spec fn nest_from(
    l: Seq<char>,
    i: int,
    open: Seq<Seq<char>>,
    deepest: nat,
    guard: Option<Seq<char>>,
) -> nat
    decreases l.len() - i, if guard is Some { 1int } else { 0int },
{
    if i < 0 || i + 1 >= l.len() {
        deepest
    } else if l[i] != '<' {
        nest_from(l, i + 1, open, deepest, guard)
    } else if guard is Some {
        let g = guard->0;
        if ends_at(l, g, i) {
            nest_from(l, i, open, deepest, None)
        } else if 'a' <= l[i + 1] && l[i + 1] <= 'z' {
            let e = name_end(l, i + 1);
            let now = open.push(l.subrange(i + 1, e));
            if i < e && e <= l.len() {
                nest_from(l, e, now, deeper(deepest, now), guard)
            } else {
                deepest
            }
        } else {
            nest_from(l, i + 1, open, deepest, guard)
        }
    } else if occurs_at(l, "<!--"@, i) {
        match comment_close(l, i) {
            Some(k) => if i < k && k <= l.len() {
                nest_from(l, k, open, deepest, None)
            } else {
                deepest
            },
            None => deepest,
        }
    } else if l[i + 1] == '!' || l[i + 1] == '?' {
        match first_occurrence(l, seq!['>'], i + 2) {
            Some(k) => if i < k && k < l.len() {
                nest_from(l, k + 1, open, deepest, None)
            } else {
                deepest
            },
            None => deepest,
        }
    } else if l[i + 1] == '/' {
        if i + 2 < l.len() && 'a' <= l[i + 2] && l[i + 2] <= 'z' {
            let e = name_end(l, i + 2);
            let n = l.subrange(i + 2, e);
            if i + 2 <= e && e <= l.len() {
                match tag_finish(l, e, 0) {
                    Some(k) => if i < k && k < l.len() {
                        let after = if n == "html"@ || n == "body"@ {
                            open
                        } else {
                            match pop_to(open, n) {
                                Some(o) => o,
                                None => open,
                            }
                        };
                        nest_from(l, k + 1, after, deepest, None)
                    } else {
                        deepest
                    },
                    None => deepest,
                }
            } else {
                deepest
            }
        } else if i + 2 < l.len() && l[i + 2] == '>' {
            nest_from(l, i + 3, open, deepest, None)
        } else {
            match first_occurrence(l, seq!['>'], i + 2) {
                Some(k) => if i < k && k < l.len() {
                    nest_from(l, k + 1, open, deepest, None)
                } else {
                    deepest
                },
                None => deepest,
            }
        }
    } else if 'a' <= l[i + 1] && l[i + 1] <= 'z' {
        let e = name_end(l, i + 1);
        let n = l.subrange(i + 1, e);
        if i + 1 <= e && e <= l.len() {
            match tag_finish(l, e, 0) {
                Some(k) => if i < k && k < l.len() {
                    if void_name(n) {
                        nest_from(l, k + 1, open, deepest, None)
                    } else if raw_text_name(n) {
                        let now = open.push(n);
                        if any_foreign(open) {
                            nest_from(l, k + 1, now, deeper(deepest, now), Some(n))
                        } else {
                            match raw_end(l, n, k + 1) {
                                Some(c) => if n == "script"@ && script_may_nest(l, k + 1, c) {
                                    unmeasured()
                                } else if k < c && c < l.len() {
                                    nest_from(l, c, open, deeper(deepest, now), None)
                                } else {
                                    deepest
                                },
                                None => deeper(deepest, now),
                            }
                        }
                    } else {
                        let base = if closes_same(n) && open.len() > 0 && open.last() == n {
                            open.drop_last()
                        } else {
                            open
                        };
                        let now = base.push(n);
                        nest_from(l, k + 1, now, deeper(deepest, now), None)
                    }
                } else {
                    deepest
                },
                None => deepest,
            }
        } else {
            deepest
        }
    } else {
        nest_from(l, i + 1, open, deepest, None)
    }
}

/// A foreign, select or frameset element is open.
pub open spec fn any_foreign(open: Seq<Seq<char>>) -> bool {
    exists|m: int| 0 <= m < open.len() && foreign_name(#[trigger] open[m])
}

/// A script's content from `a` to `c` opens a comment and names a script, so
/// the tokenizer may read a nested script in it.
pub open spec fn script_may_nest(l: Seq<char>, a: int, c: int) -> bool {
    (match first_occurrence(l, "<!--"@, a) {
        Some(x) => x < c,
        None => false,
    }) && (match first_occurrence(l, "<script"@, a) {
        Some(x) => x < c,
        None => false,
    })
}

/// How deep the elements of a page nest.
pub open spec fn nesting(html: Seq<char>) -> nat {
    nest_from(lower(html), 0, Seq::empty(), 0, None)
}

/// A page nests deeper than is handed to the extractor.
pub open spec fn too_deep(html: Seq<char>) -> bool {
    nesting(html) > MAX_NESTING
}

fn name_end_exec(l: &Vec<char>, j: usize) -> (r: usize)
    requires
        j <= l.len(),
    ensures
        r as int == name_end(l@, j as int),
        j <= r <= l.len(),
        j < l.len() && is_name_char(l@[j as int]) ==> j < r,
{
    let mut k: usize = j;
    while k < l.len() && !(l[k] == ' ' || l[k] == '\t' || l[k] == '\n' || l[k] == '\r' || l[k]
        == '\x0c' || l[k] == '/' || l[k] == '>')
        invariant
            j <= k <= l.len(),
            name_end(l@, k as int) == name_end(l@, j as int),
        decreases l.len() - k,
    {
        k = k + 1;
    }
    k
}

fn slice_chars(l: &Vec<char>, a: usize, b: usize) -> (r: Vec<char>)
    requires
        a <= b <= l.len(),
    ensures
        r@ == l@.subrange(a as int, b as int),
{
    let mut r: Vec<char> = Vec::new();
    let mut k: usize = a;
    while k < b
        invariant
            a <= k <= b <= l.len(),
            r@ == l@.subrange(a as int, k as int),
        decreases b - k,
    {
        r.push(l[k]);
        k = k + 1;
        assert(r@ =~= l@.subrange(a as int, k as int));
    }
    r
}

fn same_chars(x: &Vec<char>, y: &Vec<char>) -> (r: bool)
    ensures
        r == (x@ == y@),
{
    if x.len() != y.len() {
        return false;
    }
    let mut k: usize = 0;
    while k < x.len()
        invariant
            x.len() == y.len(),
            k <= x.len(),
            forall|m: int| 0 <= m < k ==> x@[m] == y@[m],
        decreases x.len() - k,
    {
        if x[k] != y[k] {
            return false;
        }
        k = k + 1;
    }
    assert(x@ =~= y@);
    true
}

fn is_named(n: &Vec<char>, name: &str) -> (r: bool)
    ensures
        r == (n@ == name@),
{
    let m = chars_of(name);
    same_chars(n, &m)
}

fn void_exec(n: &Vec<char>) -> (r: bool)
    ensures
        r == void_name(n@),
{
    is_named(n, "area") || is_named(n, "base") || is_named(n, "br") || is_named(n, "col")
        || is_named(n, "embed") || is_named(n, "hr") || is_named(n, "img") || is_named(n, "input")
        || is_named(n, "link") || is_named(n, "meta") || is_named(n, "param") || is_named(
        n,
        "source",
    ) || is_named(n, "track") || is_named(n, "wbr")
}

fn closes_same_exec(n: &Vec<char>) -> (r: bool)
    ensures
        r == closes_same(n@),
{
    is_named(n, "p") || is_named(n, "li") || is_named(n, "option") || is_named(n, "dt") || is_named(
        n,
        "dd",
    ) || is_named(n, "tr") || is_named(n, "td") || is_named(n, "th")
}

fn raw_text_exec(n: &Vec<char>) -> (r: bool)
    ensures
        r == raw_text_name(n@),
{
    is_named(n, "script") || is_named(n, "style") || is_named(n, "textarea") || is_named(n, "title")
        || is_named(n, "xmp") || is_named(n, "iframe") || is_named(n, "noembed") || is_named(
        n,
        "noframes",
    ) || is_named(n, "noscript")
}

fn foreign_exec(n: &Vec<char>) -> (r: bool)
    ensures
        r == foreign_name(n@),
{
    is_named(n, "svg") || is_named(n, "math") || is_named(n, "select") || is_named(n, "frameset")
}

fn ordinary_exec(n: &Vec<char>) -> (r: bool)
    ensures
        r == ordinary_name(n@),
{
    is_named(n, "span") || is_named(n, "path") || is_named(n, "circle") || is_named(n, "rect")
        || is_named(n, "line") || is_named(n, "polyline") || is_named(n, "polygon") || is_named(
        n,
        "ellipse",
    ) || is_named(n, "use") || is_named(n, "stop") || is_named(n, "g") || is_named(n, "defs")
        || is_named(n, "symbol") || is_named(n, "lineargradient") || is_named(n, "radialgradient")
        || is_named(n, "clippath") || is_named(n, "mask") || is_named(n, "tspan") || is_named(
        n,
        "label",
    ) || is_named(n, "abbr") || is_named(n, "time") || is_named(n, "cite") || is_named(n, "mark")
        || is_named(n, "q") || is_named(n, "sub") || is_named(n, "sup") || is_named(n, "kbd")
        || is_named(n, "samp") || is_named(n, "var") || is_named(n, "data") || is_named(n, "bdi")
}

fn tag_step_exec(st: u8, c: char) -> (r: u8)
    ensures
        r == tag_step(st, c),
{
    let space = c == ' ' || c == '\t' || c == '\n' || c == '\r' || c == '\x0c';
    if st == 5 {
        if c == '"' { 8 } else { 5 }
    } else if st == 6 {
        if c == '\'' { 8 } else { 6 }
    } else if c == '>' {
        10
    } else if st == 7 {
        if space { 1 } else { 7 }
    } else if st == 4 {
        if space {
            4
        } else if c == '"' {
            5
        } else if c == '\'' {
            6
        } else {
            7
        }
    } else if space {
        if st == 2 || st == 3 { 3 } else { 1 }
    } else if c == '/' {
        9
    } else if st == 0 {
        0
    } else if c == '=' && (st == 2 || st == 3) {
        4
    } else {
        2
    }
}

proof fn lemma_tag_finish_bound(l: Seq<char>, j: int, st: u8)
    ensures
        tag_finish(l, j, st) is Some ==> j <= tag_finish(l, j, st)->0 < l.len(),
    decreases l.len() - j,
{
    if 0 <= j < l.len() && tag_step(st, l[j]) != 10 {
        lemma_tag_finish_bound(l, j + 1, tag_step(st, l[j]));
    }
}

fn tag_finish_exec(l: &Vec<char>, from: usize) -> (r: Option<usize>)
    ensures
        r is None <==> tag_finish(l@, from as int, 0) is None,
        r matches Some(k) ==> tag_finish(l@, from as int, 0) == Some(k as int),
{
    proof {
        lemma_tag_finish_bound(l@, from as int, 0);
    }
    let mut j: usize = from;
    let mut st: u8 = 0;
    while j < l.len()
        invariant
            from <= j,
            tag_finish(l@, j as int, st) == tag_finish(l@, from as int, 0),
        decreases l.len() - j,
    {
        let next = tag_step_exec(st, l[j]);
        if next == 10 {
            return Some(j);
        }
        st = next;
        j = j + 1;
    }
    None
}

fn ends_at_exec(l: &Vec<char>, g: &Vec<char>, i: usize) -> (r: bool)
    requires
        i <= l.len(),
    ensures
        r == ends_at(l@, g@, i as int),
{
    let n = l.len();
    if n - i < 3 || n - i - 2 <= g.len() {
        return false;
    }
    if !('a' <= l[i + 2] && l[i + 2] <= 'z') {
        return false;
    }
    if l[i] != '<' || l[i + 1] != '/' {
        assert(l@.subrange(i as int, i + 2 + g.len())[0] == l@[i as int]);
        assert(l@.subrange(i as int, i + 2 + g.len())[1] == l@[i + 1]);
        assert((seq!['<', '/'] + g@)[0] == '<');
        assert((seq!['<', '/'] + g@)[1] == '/');
        return false;
    }
    let mut k: usize = 0;
    while k < g.len()
        invariant
            i + 2 + g.len() < n,
            n == l.len(),
            l@[i as int] == '<',
            l@[i + 1] == '/',
            k <= g.len(),
            forall|m: int| 0 <= m < k ==> l@[i + 2 + m] == g@[m],
        decreases g.len() - k,
    {
        if l[i + 2 + k] != g[k] {
            assert(l@.subrange(i as int, i + 2 + g.len())[k + 2] == l@[i + 2 + k]);
            assert((seq!['<', '/'] + g@)[k + 2] == g@[k as int]);
            return false;
        }
        k = k + 1;
    }
    assert(l@.subrange(i as int, i + 2 + g.len()) =~= seq!['<', '/'] + g@);
    let c = l[i + 2 + g.len()];
    c == ' ' || c == '\t' || c == '\n' || c == '\r' || c == '\x0c' || c == '/' || c == '>'
}

proof fn lemma_raw_end_bound(l: Seq<char>, g: Seq<char>, k: int)
    ensures
        raw_end(l, g, k) is Some ==> k <= raw_end(l, g, k)->0 < l.len(),
    decreases l.len() - k,
{
    if 0 <= k < l.len() && !ends_at(l, g, k) {
        lemma_raw_end_bound(l, g, k + 1);
    }
}

fn raw_end_exec(l: &Vec<char>, g: &Vec<char>, from: usize) -> (r: Option<usize>)
    ensures
        r is None <==> raw_end(l@, g@, from as int) is None,
        r matches Some(k) ==> raw_end(l@, g@, from as int) == Some(k as int),
{
    proof {
        lemma_raw_end_bound(l@, g@, from as int);
    }
    let mut k: usize = from;
    while k < l.len()
        invariant
            from <= k,
            raw_end(l@, g@, k as int) == raw_end(l@, g@, from as int),
        decreases l.len() - k,
    {
        if ends_at_exec(l, g, k) {
            return Some(k);
        }
        k = k + 1;
    }
    None
}

fn dash_close_exec(l: &Vec<char>, from: usize, arrow: &Vec<char>, bang: &Vec<char>) -> (r: Option<
    usize,
>)
    requires
        arrow@ == "-->"@,
        bang@ == "--!>"@,
    ensures
        r is None <==> dash_close(l@, from as int) is None,
        r matches Some(k) ==> dash_close(l@, from as int) == Some(k as int),
{
    let mut k: usize = from;
    while k < l.len()
        invariant
            from <= k,
            arrow@ == "-->"@,
            bang@ == "--!>"@,
            dash_close(l@, k as int) == dash_close(l@, from as int),
        decreases l.len() - k,
    {
        if occurs_at_exec(l, arrow, k) {
            proof {
                reveal_strlit("-->");
            }
            return Some(k + 3);
        }
        if occurs_at_exec(l, bang, k) {
            proof {
                reveal_strlit("--!>");
            }
            return Some(k + 4);
        }
        k = k + 1;
    }
    None
}

fn has_foreign(open: &Vec<Vec<char>>) -> (r: bool)
    ensures
        r == any_foreign(open@.map_values(|v: Vec<char>| v@)),
{
    let ghost names = open@.map_values(|v: Vec<char>| v@);
    let mut m: usize = 0;
    while m < open.len()
        invariant
            names == open@.map_values(|v: Vec<char>| v@),
            m <= open.len(),
            forall|x: int| 0 <= x < m ==> !foreign_name(#[trigger] names[x]),
        decreases open.len() - m,
    {
        if foreign_exec(&open[m]) {
            assert(foreign_name(names[m as int]));
            return true;
        }
        m = m + 1;
    }
    false
}

/// Where the open elements are cut by an end tag naming `n`.
fn pop_index(open: &Vec<Vec<char>>, n: &Vec<char>) -> (r: Option<usize>)
    ensures
        r is None <==> pop_to(open@.map_values(|v: Vec<char>| v@), n@) is None,
        r matches Some(j) ==> j < open.len() && pop_to(open@.map_values(|v: Vec<char>| v@), n@)
            == Some(open@.map_values(|v: Vec<char>| v@).take(j as int)),
{
    let ghost names = open@.map_values(|v: Vec<char>| v@);
    let mut k: usize = open.len();
    assert(names.take(k as int) =~= names);
    while k > 0
        invariant
            names == open@.map_values(|v: Vec<char>| v@),
            k <= open.len(),
            pop_to(names.take(k as int), n@) == pop_to(names, n@),
        decreases k,
    {
        proof {
            assert(names.take(k as int).drop_last() =~= names.take(k - 1));
            assert(names.take(k as int).last() == names[k - 1]);
        }
        if same_chars(&open[k - 1], n) {
            return Some(k - 1);
        }
        if !ordinary_exec(&open[k - 1]) {
            return None;
        }
        k = k - 1;
    }
    None
}

/// Applies an end tag naming `n` to the open elements.
fn apply_end(open: &mut Vec<Vec<char>>, n: &Vec<char>)
    ensures
        final(open)@.map_values(|v: Vec<char>| v@) == match pop_to(
            old(open)@.map_values(|v: Vec<char>| v@),
            n@,
        ) {
            Some(o) => o,
            None => old(open)@.map_values(|v: Vec<char>| v@),
        },
        final(open).len() <= old(open).len(),
{
    let ghost names = open@.map_values(|v: Vec<char>| v@);
    match pop_index(open, n) {
        None => {},
        Some(j) => {
            assert(open@.map_values(|v: Vec<char>| v@) =~= names.take(open.len() as int));
            while open.len() > j
                invariant
                    open.len() >= j,
                    names.len() >= open.len(),
                    open@.map_values(|v: Vec<char>| v@) =~= names.take(open.len() as int),
                decreases open.len(),
            {
                open.pop();
                assert(open@.map_values(|v: Vec<char>| v@) =~= names.take(open.len() as int));
            }
        },
    }
}

fn script_may_nest_exec(l: &Vec<char>, a: usize, c: usize, open_c: &Vec<char>, script: &Vec<char>) -> (r: bool)
    requires
        open_c@ == "<!--"@,
        script@ == "<script"@,
    ensures
        r == script_may_nest(l@, a as int, c as int),
{
    let x = first_occurrence_exec(l, open_c, a);
    let y = first_occurrence_exec(l, script, a);
    let cx = match x {
        Some(x) => x < c,
        None => false,
    };
    let cy = match y {
        Some(y) => y < c,
        None => false,
    };
    cx && cy
}

/// The open elements as names.
pub open spec fn names_of(open: Seq<Vec<char>>) -> Seq<Seq<char>> {
    open.map_values(|v: Vec<char>| v@)
}

/// The raw-text element being read, as a name.
pub open spec fn guard_of(g: Option<Vec<char>>) -> Option<Seq<char>> {
    match g {
        Some(v) => Some(v@),
        None => None,
    }
}

/// One step of the scan: go on from a later position, or stop with a result.
enum Step {
    Go(usize),
    Stop(usize),
}

/// A step from position `i` keeps the result that the scan reaches.
spec fn step_ok(
    l: Seq<char>,
    i: int,
    before: nat,
    r: Step,
    open: Seq<Vec<char>>,
    deepest: usize,
    guard: Option<Vec<char>>,
) -> bool {
    match r {
        Step::Go(j) => i < j <= l.len() && open.len() <= j && deepest <= j && nest_from(
            l,
            j as int,
            names_of(open),
            deepest as nat,
            guard_of(guard),
        ) == before,
        Step::Stop(v) => v as nat == before,
    }
}

proof fn lemma_not_comment(l: Seq<char>, i: int)
    requires
        0 <= i,
        i + 1 < l.len(),
        l[i + 1] != '!',
    ensures
        !occurs_at(l, "<!--"@, i),
{
    reveal_strlit("<!--");
    if occurs_at(l, "<!--"@, i) {
        assert(l.subrange(i, i + 4)[1] == l[i + 1]);
    }
}

fn guard_step(l: &Vec<char>, i: usize, open: &mut Vec<Vec<char>>, deepest: &mut usize, guard: &mut Option<Vec<char>>, html_name: &Vec<char>, body_name: &Vec<char>) -> (r: Step)
    requires
        html_name@ == "html"@,
        body_name@ == "body"@,
        i + 1 < l.len(),
        l@[i as int] == '<',
        *old(guard) is Some,
        old(open).len() <= i,
        *old(deepest) <= i,
    ensures
        step_ok(l@, i as int, nest_from(l@, i as int, names_of(old(open)@), *old(deepest) as nat, guard_of(*old(guard))), r, final(open)@, *final(deepest), *final(guard)),
{
    let ghost names = names_of(open@);
    let g = guard.clone().unwrap();
    assert(g@ == guard_of(*guard)->0);
    if ends_at_exec(l, &g, i) {
        proof {
            assert(l@.subrange(i as int, i + 2 + g@.len())[1] == l@[i + 1]);
            assert((seq!['<', '/'] + g@)[1] == '/');
        }
        *guard = None;
        return end_tag_step(l, i, open, &*deepest, html_name, body_name);
    }
    if 'a' <= l[i + 1] && l[i + 1] <= 'z' {
        let e = name_end_exec(l, i + 1);
        let name = slice_chars(l, i + 1, e);
        open.push(name);
        proof {
            assert(names_of(open@) =~= names.push(l@.subrange(i + 1, e as int)));
        }
        if open.len() > *deepest {
            *deepest = open.len();
        }
        return Step::Go(e);
    }
    Step::Go(i + 1)
}

fn end_tag_step(l: &Vec<char>, i: usize, open: &mut Vec<Vec<char>>, deepest: &usize, html_name: &Vec<char>, body_name: &Vec<char>) -> (r: Step)
    requires
        i + 2 < l.len(),
        l@[i as int] == '<',
        l@[i + 1] == '/',
        'a' <= l@[i + 2] <= 'z',
        old(open).len() <= i,
        *deepest <= i,
        html_name@ == "html"@,
        body_name@ == "body"@,
    ensures
        step_ok(l@, i as int, nest_from(l@, i as int, names_of(old(open)@), *deepest as nat, None), r, final(open)@, *deepest, None),
{
    let e = name_end_exec(l, i + 2);
    let name = slice_chars(l, i + 2, e);
    proof {
        lemma_not_comment(l@, i as int);
        lemma_tag_finish_bound(l@, e as int, 0);
    }
    let ghost before = names_of(open@);
    match tag_finish_exec(l, e) {
        Some(k) => {
            assert(name@ == l@.subrange(i + 2, e as int));
            if !(same_chars(&name, html_name) || same_chars(&name, body_name)) {
                apply_end(open, &name);
                assert(names_of(open@) == match pop_to(before, name@) {
                    Some(o) => o,
                    None => before,
                });
            } else {
                assert(name@ == "html"@ || name@ == "body"@);
            }
            assert(nest_from(l@, i as int, before, *deepest as nat, None) == nest_from(
                l@,
                k + 1,
                names_of(open@),
                *deepest as nat,
                None,
            ));
            Step::Go(k + 1)
        },
        None => Step::Stop(*deepest),
    }
}

fn start_tag_step(l: &Vec<char>, i: usize, open: &mut Vec<Vec<char>>, deepest: &mut usize, guard: &mut Option<Vec<char>>, comment_open: &Vec<char>, script_open: &Vec<char>, script: &Vec<char>) -> (r: Step)
    requires
        i + 1 < l.len(),
        l@[i as int] == '<',
        'a' <= l@[i + 1] <= 'z',
        *old(guard) is None,
        old(open).len() <= i,
        *old(deepest) <= i,
        comment_open@ == "<!--"@,
        script_open@ == "<script"@,
        script@ == "script"@,
    ensures
        step_ok(l@, i as int, nest_from(l@, i as int, names_of(old(open)@), *old(deepest) as nat, None), r, final(open)@, *final(deepest), *final(guard)),
{
    let ghost names = names_of(open@);
    let e = name_end_exec(l, i + 1);
    let name = slice_chars(l, i + 1, e);
    proof {
        lemma_not_comment(l@, i as int);
        lemma_tag_finish_bound(l@, e as int, 0);
    }
    let k = match tag_finish_exec(l, e) {
        Some(k) => k,
        None => return Step::Stop(*deepest),
    };
    if void_exec(&name) {
        return Step::Go(k + 1);
    }
    if raw_text_exec(&name) {
        if has_foreign(open) {
            let g = slice_chars(l, i + 1, e);
            open.push(name);
            proof {
                assert(names_of(open@) =~= names.push(l@.subrange(i + 1, e as int)));
            }
            if open.len() > *deepest {
                *deepest = open.len();
            }
            *guard = Some(g);
            return Step::Go(k + 1);
        }
        proof {
            lemma_raw_end_bound(l@, name@, k + 1);
        }
        let depth_here = open.len() + 1;
        let d = if depth_here > *deepest { depth_here } else { *deepest };
        proof {
            assert(names.push(name@).len() == depth_here);
        }
        return match raw_end_exec(l, &name, k + 1) {
            Some(c) => {
                if same_chars(&name, script) && script_may_nest_exec(l, k + 1, c, comment_open, script_open) {
                    Step::Stop(MAX_NESTING + 1)
                } else {
                    *deepest = d;
                    Step::Go(c)
                }
            },
            None => Step::Stop(d),
        };
    }
    if closes_same_exec(&name) && open.len() > 0 && same_chars(&open[open.len() - 1], &name) {
        open.pop();
        proof {
            assert(names_of(open@) =~= names.drop_last());
        }
    }
    let ghost base = names_of(open@);
    open.push(name);
    proof {
        assert(names_of(open@) =~= base.push(l@.subrange(i + 1, e as int)));
    }
    if open.len() > *deepest {
        *deepest = open.len();
    }
    Step::Go(k + 1)
}

fn other_step(l: &Vec<char>, i: usize, open: &Vec<Vec<char>>, deepest: usize, comment_open: &Vec<char>, arrow: &Vec<char>, bang: &Vec<char>, gt: &Vec<char>) -> (r: Step)
    requires
        i + 1 < l.len(),
        l@[i as int] == '<',
        !('a' <= l@[i + 1] <= 'z'),
        !(l@[i + 1] == '/' && i + 2 < l.len() && 'a' <= l@[i + 2] <= 'z'),
        open.len() <= i,
        deepest <= i,
        comment_open@ == "<!--"@,
        arrow@ == "-->"@,
        bang@ == "--!>"@,
        gt@ == seq!['>'],
    ensures
        step_ok(l@, i as int, nest_from(l@, i as int, names_of(open@), deepest as nat, None), r, open@, deepest, None),
{
    let n = l.len();
    if occurs_at_exec(l, comment_open, i) {
        let c = if n - i > 4 && l[i + 4] == '>' {
            Some(i + 5)
        } else if n - i > 5 && l[i + 4] == '-' && l[i + 5] == '>' {
            Some(i + 6)
        } else if n - i >= 4 {
            dash_close_exec(l, i + 4, arrow, bang)
        } else {
            None
        };
        return match c {
            Some(k) => if i < k && k <= n { Step::Go(k) } else { Step::Stop(deepest) },
            None => Step::Stop(deepest),
        };
    }
    if l[i + 1] == '!' || l[i + 1] == '?' || (l[i + 1] == '/' && !(n - i > 2 && l[i + 2] == '>')) {
        proof {
            lemma_first_occurrence_bound(l@, gt@, i + 2);
        }
        return match first_occurrence_exec(l, gt, i + 2) {
            Some(k) => if i < k && k < n { Step::Go(k + 1) } else { Step::Stop(deepest) },
            None => Step::Stop(deepest),
        };
    }
    if l[i + 1] == '/' {
        return Step::Go(i + 3);
    }
    Step::Go(i + 1)
}

/// How deep the elements of a page nest.
pub fn html_nesting(html: &str) -> (r: usize)
    ensures
        r == nesting(html@),
{
    let low = ascii_lowercase(html);
    let l = chars_of(low.as_str());
    let comment_open = chars_of("<!--");
    let arrow = chars_of("-->");
    let bang = chars_of("--!>");
    let gt = chars_of(">");
    let script_open = chars_of("<script");
    let script = chars_of("script");
    let html_name = chars_of("html");
    let body_name = chars_of("body");
    proof {
        reveal_strlit(">");
        assert(gt@ =~= seq!['>']);
    }
    let ghost total = nesting(html@);
    let n = l.len();
    let mut open: Vec<Vec<char>> = Vec::new();
    let mut guard: Option<Vec<char>> = None;
    let mut deepest: usize = 0;
    let mut i: usize = 0;
    assert(names_of(open@) =~= Seq::<Seq<char>>::empty());
    while i < n && n - i >= 2
        invariant
            n == l.len(),
            l@ == lower(html@),
            comment_open@ == "<!--"@,
            arrow@ == "-->"@,
            bang@ == "--!>"@,
            gt@ == seq!['>'],
            script_open@ == "<script"@,
            script@ == "script"@,
            html_name@ == "html"@,
            body_name@ == "body"@,
            total == nesting(html@),
            i <= n,
            deepest <= i,
            open.len() <= i,
            nest_from(l@, i as int, names_of(open@), deepest as nat, guard_of(guard)) == total,
        decreases n - i,
    {
        if l[i] != '<' {
            i = i + 1;
        } else {
            let step = if guard.is_some() {
                guard_step(&l, i, &mut open, &mut deepest, &mut guard, &html_name, &body_name)
            } else if !('a' <= l[i + 1] && l[i + 1] <= 'z') && !(l[i + 1] == '/' && n - i > 2 && 'a'
                <= l[i + 2] && l[i + 2] <= 'z') {
                other_step(&l, i, &open, deepest, &comment_open, &arrow, &bang, &gt)
            } else if l[i + 1] == '/' {
                end_tag_step(&l, i, &mut open, &deepest, &html_name, &body_name)
            } else {
                start_tag_step(&l, i, &mut open, &mut deepest, &mut guard, &comment_open, &script_open, &script)
            };
            match step {
                Step::Go(j) => {
                    i = j;
                },
                Step::Stop(v) => {
                    return v;
                },
            }
        }
    }
    deepest
}

} // verus!
