//! Views of strings and lists of strings, and the path relations the
//! scheduler relies on. Paths are relative, `/`-separated, as git reports
//! them.
use vstd::prelude::*;

verus! {

broadcast use vstd::string::to_string_from_display_ensures_for_str;

/// The characters of each string of a list.
pub open spec fn views(v: Seq<String>) -> Seq<Seq<char>> {
    v.map_values(|s: String| s@)
}

/// The keep-the-elements-that-satisfy-`p` filter of a list of strings,
/// proved step by step in loops that go from left to right.
pub proof fn lemma_filter_step(v: Seq<String>, i: int, p: spec_fn(Seq<char>) -> bool)
    requires
        0 <= i < v.len(),
    ensures
        views(v.subrange(0, i + 1)).filter(p) == (if p(v[i]@) {
            views(v.subrange(0, i)).filter(p).push(v[i]@)
        } else {
            views(v.subrange(0, i)).filter(p)
        }),
{
    let a = views(v.subrange(0, i + 1));
    assert(a.drop_last() =~= views(v.subrange(0, i)));
    assert(a.last() == v[i]@);
    reveal(Seq::filter);
}

pub proof fn lemma_views_index(v: Seq<String>)
    ensures
        views(v).len() == v.len(),
        forall|i: int| #![trigger views(v)[i]] #![trigger v[i]] 0 <= i < v.len() ==> views(v)[i] == v[i]@,
{
}

pub proof fn lemma_views_full(v: Seq<String>)
    ensures
        views(v.subrange(0, v.len() as int)) == views(v),
{
    assert(v.subrange(0, v.len() as int) =~= v);
}

/// Copies a list of strings.
pub fn copy_strings(v: &Vec<String>) -> (r: Vec<String>)
    ensures
        r@ == v@,
{
    let mut out: Vec<String> = Vec::new();
    let mut i: usize = 0;
    while i < v.len()
        invariant
            i <= v@.len(),
            out@ == v@.subrange(0, i as int),
        decreases v@.len() - i,
    {
        out.push(v[i].clone());
        assert(out@ =~= v@.subrange(0, i as int + 1));
        i += 1;
    }
    assert(out@ =~= v@);
    out
}

/// `p` is `dir` itself or lies under it; every path lies under the empty
/// directory (the root).
pub open spec fn path_within(p: Seq<char>, dir: Seq<char>) -> bool {
    ||| dir.len() == 0
    ||| p == dir
    ||| (dir.len() < p.len() && p.subrange(0, dir.len() as int) == dir && p[dir.len() as int] == '/')
}

/// `p` relative to `dir`, for a `p` within `dir`.
pub open spec fn strip_dir(p: Seq<char>, dir: Seq<char>) -> Seq<char> {
    if dir.len() == 0 {
        p
    } else if p == dir {
        Seq::empty()
    } else {
        p.subrange(dir.len() as int + 1, p.len() as int)
    }
}

/// The directory of `p`: what comes before its last `/`, or the root.
pub open spec fn parent_dir(p: Seq<char>) -> Seq<char> {
    match last_slash(p, p.len() as int) {
        Some(k) => p.subrange(0, k),
        None => Seq::empty(),
    }
}

/// The position of the last `/` of `p` before position `end`.
pub open spec fn last_slash(p: Seq<char>, end: int) -> Option<int>
    decreases end,
{
    if end <= 0 {
        None
    } else if p[end - 1] == '/' {
        Some(end - 1)
    } else {
        last_slash(p, end - 1)
    }
}

pub fn is_within(p: &str, dir: &str) -> (r: bool)
    ensures
        r == path_within(p@, dir@),
{
    let pl = p.unicode_len();
    let dl = dir.unicode_len();
    if dl == 0 {
        return true;
    }
    if pl < dl {
        return false;
    }
    let mut i: usize = 0;
    while i < dl
        invariant
            pl == p@.len(),
            dl == dir@.len(),
            dl <= pl,
            i <= dl,
            forall|j: int| 0 <= j < i ==> p@[j] == dir@[j],
        decreases dl - i,
    {
        if p.get_char(i) != dir.get_char(i) {
            return false;
        }
        i += 1;
    }
    assert(p@.subrange(0, dl as int) =~= dir@);
    if pl == dl {
        assert(p@ =~= dir@);
        true
    } else {
        p.get_char(dl) == '/'
    }
}

/// `p` relative to `dir`.
pub fn strip_dir_exec(p: &str, dir: &str) -> (r: String)
    requires
        path_within(p@, dir@),
    ensures
        r@ == strip_dir(p@, dir@),
{
    let pl = p.unicode_len();
    let dl = dir.unicode_len();
    if dl == 0 {
        return p.to_string();
    }
    if pl == dl {
        assert(p@.subrange(0, dl as int) == p@);
        return String::new();
    }
    p.substring_char(dl + 1, pl).to_string()
}

/// The directory of `p`.
pub fn parent_dir_exec(p: &str) -> (r: String)
    ensures
        r@ == parent_dir(p@),
{
    let n = p.unicode_len();
    let mut end: usize = n;
    while end > 0
        invariant
            n == p@.len(),
            end <= n,
            last_slash(p@, n as int) == last_slash(p@, end as int),
        decreases end,
    {
        if p.get_char(end - 1) == '/' {
            return p.substring_char(0, end - 1).to_string();
        }
        end -= 1;
    }
    String::new()
}

/// The pieces of `s` between occurrences of `sep`, as `str::split` gives
/// them: one more piece than there are separators.
pub open spec fn spec_split(s: Seq<char>, sep: char) -> Seq<Seq<char>>
    decreases s.len(),
{
    if s.len() == 0 {
        seq![Seq::empty()]
    } else {
        let p = spec_split(s.drop_last(), sep);
        if s.last() == sep {
            p.push(Seq::empty())
        } else {
            p.update(p.len() - 1, p.last().push(s.last()))
        }
    }
}

pub proof fn lemma_split_nonempty(s: Seq<char>, sep: char)
    ensures
        spec_split(s, sep).len() >= 1,
    decreases s.len(),
{
    if s.len() > 0 {
        lemma_split_nonempty(s.drop_last(), sep);
    }
}

pub fn split_on(s: &str, sep: char) -> (r: Vec<String>)
    ensures
        views(r@) == spec_split(s@, sep),
{
    let n = s.unicode_len();
    let mut pieces: Vec<String> = Vec::new();
    let mut start: usize = 0;
    let mut i: usize = 0;
    proof {
        assert(s@.subrange(0, 0) =~= Seq::<char>::empty());
    }
    while i < n
        invariant
            n == s@.len(),
            start <= i <= n,
            spec_split(s@.subrange(0, i as int), sep) == views(pieces@).push(s@.subrange(start as int, i as int)),
        decreases n - i,
    {
        let ghost pre = s@.subrange(0, i as int + 1);
        assert(pre.drop_last() =~= s@.subrange(0, i as int));
        assert(pre.last() == s@[i as int]);
        proof {
            lemma_split_nonempty(s@.subrange(0, i as int), sep);
        }
        let c = s.get_char(i);
        if c == sep {
            let piece = s.substring_char(start, i).to_string();
            let ghost before = pieces@;
            pieces.push(piece);
            assert(views(pieces@) =~= views(before).push(piece@));
            start = i + 1;
            assert(s@.subrange(start as int, i as int + 1) =~= Seq::<char>::empty());
        } else {
            assert(s@.subrange(start as int, i as int + 1) =~= s@.subrange(start as int, i as int).push(c));
        }
        i += 1;
    }
    let last = s.substring_char(start, n).to_string();
    let ghost before = pieces@;
    pieces.push(last);
    assert(views(pieces@) =~= views(before).push(last@));
    assert(s@.subrange(0, n as int) =~= s@);
    pieces
}

/// `s` without one trailing carriage return.
pub open spec fn trim_cr(s: Seq<char>) -> Seq<char> {
    if s.len() > 0 && s.last() == '\r' { s.drop_last() } else { s }
}

/// The lines of `s`, as `str::lines` gives them: split at line feeds, with
/// no final empty line and no trailing carriage return.
pub open spec fn spec_lines(s: Seq<char>) -> Seq<Seq<char>> {
    let parts = spec_split(s, '\n');
    let kept = if parts.last().len() == 0 { parts.drop_last() } else { parts };
    kept.map_values(|l: Seq<char>| trim_cr(l))
}

pub fn lines(s: &str) -> (r: Vec<String>)
    ensures
        views(r@) == spec_lines(s@),
{
    let parts = split_on(s, '\n');
    proof {
        lemma_split_nonempty(s@, '\n');
    }
    let last_empty = parts[parts.len() - 1].unicode_len() == 0;
    let keep = if last_empty { parts.len() - 1 } else { parts.len() };
    let ghost kept = if last_empty { views(parts@).drop_last() } else { views(parts@) };
    let mut out: Vec<String> = Vec::new();
    let mut i: usize = 0;
    while i < keep
        invariant
            keep <= parts@.len(),
            kept.len() == keep,
            forall|j: int| 0 <= j < keep ==> kept[j] == parts@[j]@,
            i <= keep,
            views(out@) == kept.subrange(0, i as int).map_values(|l: Seq<char>| trim_cr(l)),
        decreases keep - i,
    {
        let p = parts[i].as_str();
        let len = p.unicode_len();
        let line = if len > 0 && p.get_char(len - 1) == '\r' {
            p.substring_char(0, len - 1).to_string()
        } else {
            p.to_string()
        };
        assert(line@ == trim_cr(p@)) by {
            if len > 0 && p@.last() == '\r' {
                assert(p@.subrange(0, len - 1) =~= p@.drop_last());
            }
        }
        let ghost before = out@;
        out.push(line);
        assert(views(out@) =~= views(before).push(line@));
        assert(kept.subrange(0, i as int + 1).map_values(|l: Seq<char>| trim_cr(l))
            =~= kept.subrange(0, i as int).map_values(|l: Seq<char>| trim_cr(l)).push(trim_cr(kept[i as int])));
        i += 1;
    }
    assert(kept.subrange(0, keep as int) =~= kept);
    out
}

/// Whether the list holds the string.
pub fn contains_str(v: &Vec<String>, s: &String) -> (r: bool)
    ensures
        r == views(v@).contains(s@),
{
    let mut i: usize = 0;
    while i < v.len()
        invariant
            i <= v@.len(),
            forall|j: int| 0 <= j < i ==> v@[j]@ != s@,
        decreases v@.len() - i,
    {
        if v[i] == *s {
            assert(views(v@)[i as int] == s@);
            return true;
        }
        i += 1;
    }
    assert(!views(v@).contains(s@)) by {
        if views(v@).contains(s@) {
            let j = choose|j: int| 0 <= j < views(v@).len() && views(v@)[j] == s@;
            assert(v@[j]@ == s@);
        }
    }
    false
}

/// A profile name that starts with `!` disables rather than enables.
pub open spec fn is_negated(p: Seq<char>) -> bool {
    p.len() > 0 && p[0] == '!'
}

/// The profile a `!name` entry disables.
pub open spec fn negated_name(p: Seq<char>) -> Seq<char> {
    p.subrange(1, p.len() as int)
}

pub fn is_negated_exec(p: &str) -> (r: bool)
    ensures
        r == is_negated(p@),
{
    p.unicode_len() > 0 && p.get_char(0) == '!'
}

pub fn negated_name_exec(p: &str) -> (r: String)
    requires
        is_negated(p@),
    ensures
        r@ == negated_name(p@),
{
    p.substring_char(1, p.unicode_len()).to_string()
}

/// `s` with later repeats of an element left out.
pub open spec fn dedup(s: Seq<Seq<char>>) -> Seq<Seq<char>>
    decreases s.len(),
{
    if s.len() == 0 {
        s
    } else {
        let d = dedup(s.drop_last());
        if d.contains(s.last()) { d } else { d.push(s.last()) }
    }
}

/// Whether every string of `a` is in `b`.
pub fn all_in(a: &Vec<String>, b: &Vec<String>) -> (r: bool)
    ensures
        r == forall|i: int| 0 <= i < a@.len() ==> views(b@).contains(#[trigger] a@[i]@),
{
    let mut i: usize = 0;
    while i < a.len()
        invariant
            i <= a@.len(),
            forall|j: int| 0 <= j < i ==> views(b@).contains(#[trigger] a@[j]@),
        decreases a@.len() - i,
    {
        if !contains_str(b, &a[i]) {
            return false;
        }
        i += 1;
    }
    true
}

/// Whether no string of `a` is in `b`.
pub fn none_in(a: &Vec<String>, b: &Vec<String>) -> (r: bool)
    ensures
        r == forall|i: int| 0 <= i < a@.len() ==> !views(b@).contains(#[trigger] a@[i]@),
{
    let mut i: usize = 0;
    while i < a.len()
        invariant
            i <= a@.len(),
            forall|j: int| 0 <= j < i ==> !views(b@).contains(#[trigger] a@[j]@),
        decreases a@.len() - i,
    {
        if contains_str(b, &a[i]) {
            return false;
        }
        i += 1;
    }
    true
}

} // verus!
