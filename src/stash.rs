//! The decisions of the stash protocol: whether unstaged changes are set
//! aside before a hook runs, and what is put back afterwards.
use vstd::prelude::*;

use crate::error::Error;
use crate::text::{parent_dir, parent_dir_exec};
use crate::cache::{file_name, file_name_exec};

verus! {

/// How unstaged changes are set aside.
#[derive(Debug, Clone, Copy, PartialEq, Eq, Structural)]
pub enum StashMethod {
    Git,
    PatchFile,
    Disabled,
}

/// What the protocol does before the hook runs.
#[derive(Debug, Clone, Copy, PartialEq, Eq, Structural)]
pub enum StashPlan {
    Skip,
    /// Write a patch of the worktree against the index, then reset the
    /// worktree to the index.
    PatchFile,
    /// `git stash push --keep-index`.
    GitStash,
}

/// What was set aside, to be restored.
#[derive(Debug, Clone, PartialEq, Eq)]
pub enum StashKind {
    /// The patch text and the file it was written to.
    PatchFile { patch: String, path: String },
    Git,
}

pub open spec fn spec_plan(method: StashMethod, has_head: bool, unstaged: nat) -> StashPlan {
    if method == StashMethod::Disabled || !has_head || unstaged == 0 {
        StashPlan::Skip
    } else if method == StashMethod::PatchFile {
        StashPlan::PatchFile
    } else {
        StashPlan::GitStash
    }
}

/// Nothing is stashed where the method is `Disabled`, the repository has no
/// HEAD yet, or no file has unstaged changes.
pub fn plan_stash(method: StashMethod, has_head: bool, unstaged: usize) -> (r: StashPlan)
    ensures
        r == spec_plan(method, has_head, unstaged as nat),
{
    if method == StashMethod::Disabled || !has_head || unstaged == 0 {
        StashPlan::Skip
    } else if method == StashMethod::PatchFile {
        StashPlan::PatchFile
    } else {
        StashPlan::GitStash
    }
}

/// Stashing a clean worktree does nothing, whatever the method.
pub proof fn lemma_clean_worktree_stash_is_noop(method: StashMethod, has_head: bool)
    ensures
        spec_plan(method, has_head, 0) == StashPlan::Skip,
{
}

/// The stash of one hook run: what is set aside, if anything.
#[derive(Debug)]
pub struct Stash {
    pub saved: Option<StashKind>,
}

impl Stash {
    pub fn new() -> (r: Stash)
        ensures
            r.saved is None,
    {
        Stash { saved: None }
    }

    /// Records a patch. An empty patch sets nothing aside.
    pub fn record_patch(&mut self, patch: String, path: String)
        ensures
            patch@.len() == 0 ==> final(self).saved == old(self).saved,
            patch@.len() > 0 ==> final(self).saved == Some(StashKind::PatchFile { patch, path }),
    {
        if patch.unicode_len() > 0 {
            self.saved = Some(StashKind::PatchFile { patch, path });
        }
    }

    /// Records a `git stash push`.
    pub fn record_git(&mut self)
        ensures
            final(self).saved == Some(StashKind::Git),
    {
        self.saved = Some(StashKind::Git);
    }

    /// What to restore, once: a second pop finds nothing.
    pub fn pop(&mut self) -> (r: Option<StashKind>)
        ensures
            r == old(self).saved,
            final(self).saved is None,
    {
        self.saved.take()
    }
}

/// The result of a hook once the stash has been popped: the hook's own
/// error comes first; a failed pop surfaces only after a success.
pub fn with_pop_result(result: Result<(), Error>, pop: Result<(), Error>) -> (r: Result<(), Error>)
    ensures
        result is Err ==> r == result,
        result is Ok ==> r == pop,
{
    match result {
        Err(e) => Err(e),
        Ok(()) => pop,
    }
}

/// Relies on getrandom::u32: a random number, or none where the system
/// source fails. Nothing is known of its value.
#[verifier::external_body]
fn random_u32() -> Option<u32> {
    getrandom::u32().ok()
}

/// Relies on chrono's Local::now formatted as `%Y-%m-%d`: today's date.
/// Nothing is known of its value.
#[verifier::external_body]
fn today() -> String {
    chrono::Local::now().format("%Y-%m-%d").to_string()
}

/// `n` in decimal, without leading zeros.
pub open spec fn decimal_of(n: nat) -> Seq<char>
    decreases n,
{
    if n < 10 {
        seq!["0123456789"@[n as int]]
    } else {
        decimal_of(n / 10) + seq!["0123456789"@[(n % 10) as int]]
    }
}

fn decimal_digit_exec(d: u32) -> (r: String)
    requires
        d < 10,
    ensures
        r@ == seq!["0123456789"@[d as int]],
{
    let digits = "0123456789";
    proof {
        reveal_strlit("0123456789");
    }
    let i = d as usize;
    let s = digits.substring_char(i, i + 1).to_string();
    assert(s@ =~= seq!["0123456789"@[d as int]]);
    s
}

fn decimal_exec(n: u32) -> (r: String)
    ensures
        r@ == decimal_of(n as nat),
{
    let mut out = String::new();
    let mut m: u32 = n;
    while m >= 10
        invariant
            decimal_of(n as nat) == decimal_of(m as nat) + out@,
        decreases m,
    {
        let mut s = decimal_digit_exec(m % 10);
        s.append(out.as_str());
        assert(decimal_of(m as nat) == decimal_of((m / 10) as nat) + seq!["0123456789"@[(m % 10) as int]]);
        assert(decimal_of(m as nat) + out@ =~= decimal_of((m / 10) as nat) + s@);
        out = s;
        m = m / 10;
    }
    let mut s = decimal_digit_exec(m);
    s.append(out.as_str());
    assert(decimal_of(n as nat) =~= s@);
    s
}

/// The first eight characters of `s`.
pub open spec fn take8(s: Seq<char>) -> Seq<char> {
    if s.len() < 8 { s } else { s.subrange(0, 8) }
}

/// The patch file of a stash: `<state_dir>/patches/<name>-<date>-<rand>.patch`,
/// where `name` is the name of the directory that holds the repository
/// and `rand` the first eight digits of the random number (`0` where none
/// could be drawn).
pub open spec fn spec_patch_file(state_dir: Seq<char>, repo_root: Seq<char>, date: Seq<char>, rand: u32) -> Seq<char> {
    state_dir + "/patches/"@ + file_name(parent_dir(repo_root)) + seq!['-'] + date + seq!['-']
        + take8(decimal_of(rand as nat)) + ".patch"@
}

/// The patch file name for the given date and random number.
pub fn patch_file_for(state_dir: &str, repo_root: &str, date: &str, rand: u32) -> (r: String)
    ensures
        r@ == spec_patch_file(state_dir@, repo_root@, date@, rand),
{
    let parent = parent_dir_exec(repo_root);
    let name = file_name_exec(parent.as_str());
    let digits = decimal_exec(rand);
    let n = digits.as_str().unicode_len();
    let k = if n < 8 { n } else { 8 };
    let mut p = state_dir.to_string();
    p.append("/patches/");
    p.append(name.as_str());
    p.append("-");
    p.append(date);
    p.append("-");
    p.append(digits.as_str().substring_char(0, k));
    p.append(".patch");
    proof {
        reveal_strlit("/patches/");
        reveal_strlit("-");
        reveal_strlit(".patch");
        assert(digits@.subrange(0, k as int) == take8(digits@)) by {
            if n < 8 {
                assert(digits@.subrange(0, k as int) =~= digits@);
            }
        }
    }
    p
}

/// A fresh patch file name for this run, from today's date and a random
/// number.
pub fn patch_file(state_dir: &str, repo_root: &str) -> (r: String)
    ensures
        exists|date: Seq<char>, rand: u32| r@ == spec_patch_file(state_dir@, repo_root@, date, rand),
{
    let date = today();
    let rand = match random_u32() {
        Some(x) => x,
        None => 0,
    };
    patch_file_for(state_dir, repo_root, date.as_str(), rand)
}

} // verus!
