//! Reading what git prints: `git status --porcelain -z` and NUL-separated
//! file lists.
use vstd::prelude::*;

use crate::text::{contains_str, dedup, spec_split, split_on, views};

verus! {

broadcast use vstd::string::to_string_from_display_ensures_for_str;

/// The files of a worktree by state. Each list holds a path once.
#[derive(Debug)]
pub struct GitStatus {
    pub staged_files: Vec<String>,
    pub unstaged_files: Vec<String>,
    pub untracked_files: Vec<String>,
    pub modified_files: Vec<String>,
}

/// Which list of a status a porcelain entry goes to.
#[derive(Debug, Clone, Copy, PartialEq, Eq, Structural)]
pub enum StatusKind {
    Staged,
    Unstaged,
    Untracked,
    Modified,
}

/// A status letter that marks a change: modified, type changed, added,
/// renamed or copied.
pub open spec fn is_change(c: char) -> bool {
    c == 'M' || c == 'T' || c == 'A' || c == 'R' || c == 'C'
}

/// The index status letter of an entry (NUL where it has none).
pub open spec fn index_status(e: Seq<char>) -> char {
    if e.len() >= 1 { e[0] } else { '\0' }
}

/// The worktree status letter of an entry (NUL where it has none).
pub open spec fn worktree_status(e: Seq<char>) -> char {
    if e.len() >= 2 { e[1] } else { '\0' }
}

/// The path of an entry: what follows the two letters and a space.
pub open spec fn entry_path(e: Seq<char>) -> Seq<char> {
    if e.len() >= 3 { e.subrange(3, e.len() as int) } else { Seq::empty() }
}

pub open spec fn entry_in(e: Seq<char>, kind: StatusKind) -> bool {
    match kind {
        StatusKind::Staged => is_change(index_status(e)),
        StatusKind::Unstaged => is_change(worktree_status(e)) || worktree_status(e) == '?',
        StatusKind::Untracked => worktree_status(e) == '?',
        StatusKind::Modified => is_change(index_status(e)) || is_change(worktree_status(e)),
    }
}

/// The paths of the entries of one kind, each once, in order of
/// appearance.
pub open spec fn spec_collect(entries: Seq<Seq<char>>, kind: StatusKind) -> Seq<Seq<char>> {
    dedup(entries.filter(|e: Seq<char>| entry_in(e, kind)).map_values(|e: Seq<char>| entry_path(e)))
}

/// The status that `git status --porcelain --no-renames
/// --untracked-files=all -z` printed.
pub open spec fn spec_parse_status(output: Seq<char>) -> (Seq<Seq<char>>, Seq<Seq<char>>, Seq<Seq<char>>, Seq<Seq<char>>) {
    let entries = spec_split(output, '\0');
    (
        spec_collect(entries, StatusKind::Staged),
        spec_collect(entries, StatusKind::Unstaged),
        spec_collect(entries, StatusKind::Untracked),
        spec_collect(entries, StatusKind::Modified),
    )
}

fn entry_in_exec(e: &str, kind: StatusKind) -> (r: bool)
    ensures
        r == entry_in(e@, kind),
{
    let n = e.unicode_len();
    let i = if n >= 1 { e.get_char(0) } else { '\0' };
    let w = if n >= 2 { e.get_char(1) } else { '\0' };
    let ic = i == 'M' || i == 'T' || i == 'A' || i == 'R' || i == 'C';
    let wc = w == 'M' || w == 'T' || w == 'A' || w == 'R' || w == 'C';
    match kind {
        StatusKind::Staged => ic,
        StatusKind::Unstaged => wc || w == '?',
        StatusKind::Untracked => w == '?',
        StatusKind::Modified => ic || wc,
    }
}

fn entry_path_exec(e: &str) -> (r: String)
    ensures
        r@ == entry_path(e@),
{
    let n = e.unicode_len();
    if n >= 3 {
        e.substring_char(3, n).to_string()
    } else {
        String::new()
    }
}

fn collect(entries: &Vec<String>, kind: StatusKind) -> (r: Vec<String>)
    ensures
        views(r@) == spec_collect(views(entries@), kind),
{
    let ghost p = |e: Seq<char>| entry_in(e, kind);
    let mut out: Vec<String> = Vec::new();
    let mut i: usize = 0;
    while i < entries.len()
        invariant
            p == (|e: Seq<char>| entry_in(e, kind)),
            i <= entries@.len(),
            views(out@) == dedup(views(entries@.subrange(0, i as int)).filter(p).map_values(|e: Seq<char>| entry_path(e))),
        decreases entries@.len() - i,
    {
        proof {
            crate::text::lemma_filter_step(entries@, i as int, p);
        }
        let ghost kept = views(entries@.subrange(0, i as int)).filter(p);
        let ghost mapped = kept.map_values(|e: Seq<char>| entry_path(e));
        if entry_in_exec(entries[i].as_str(), kind) {
            let path = entry_path_exec(entries[i].as_str());
            let ghost m2 = kept.push(entries@[i as int]@).map_values(|e: Seq<char>| entry_path(e));
            assert(m2 =~= mapped.push(path@));
            assert(m2.drop_last() =~= mapped);
            if !contains_str(&out, &path) {
                let ghost before = out@;
                out.push(path);
                assert(views(out@) =~= views(before).push(path@));
            }
        }
        i += 1;
    }
    proof {
        crate::text::lemma_views_full(entries@);
    }
    out
}

/// Reads the output of `git status --porcelain --no-renames
/// --untracked-files=all -z`: staged files have a change letter in the
/// index column; unstaged ones a change letter or `?` in the worktree
/// column; untracked ones `?`; modified ones a change letter in either.
pub fn parse_status(output: &str) -> (r: GitStatus)
    ensures
        (views(r.staged_files@), views(r.unstaged_files@), views(r.untracked_files@), views(r.modified_files@))
            == spec_parse_status(output@),
{
    let entries = split_on(output, '\0');
    GitStatus {
        staged_files: collect(&entries, StatusKind::Staged),
        unstaged_files: collect(&entries, StatusKind::Unstaged),
        untracked_files: collect(&entries, StatusKind::Untracked),
        modified_files: collect(&entries, StatusKind::Modified),
    }
}

/// Reads a NUL-separated list of paths (`git ls-files -z`, `git diff -z
/// --name-only`), as `split('\0')` gives it.
pub fn parse_nul_list(output: &str) -> (r: Vec<String>)
    ensures
        views(r@) == spec_split(output@, '\0'),
{
    split_on(output, '\0')
}

} // verus!
