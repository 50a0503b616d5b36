//! The hook commands of the command line, without their parsing: each
//! turns its arguments into the name of the hook to run and its options.
use vstd::prelude::*;

use crate::step::{split_whitespace, whitespace_words};
use crate::template::{pair_views, Context};
use crate::text::{lines, spec_lines, views};

verus! {

broadcast use vstd::string::to_string_from_display_ensures_for_str;

/// How one invocation of a hook selects files and steps.
#[derive(Debug)]
pub struct HookOptions {
    pub files: Option<Vec<String>>,
    pub all: bool,
    pub fix: bool,
    pub check: bool,
    pub exclude: Option<Vec<String>>,
    pub exclude_glob: Option<Vec<String>>,
    pub from_ref: Option<String>,
    pub to_ref: Option<String>,
    pub glob: Option<Vec<String>>,
    pub plan: bool,
    pub step: Vec<String>,
    pub tctx: Context,
}

impl HookOptions {
    /// Options that select the default files and every step.
    pub fn new() -> (r: HookOptions)
        ensures
            r.files is None && !r.all && !r.fix && !r.check && r.exclude is None && r.exclude_glob is None,
            r.from_ref is None && r.to_ref is None && r.glob is None && !r.plan && r.step@.len() == 0,
            r.tctx.text@.len() == 0 && r.tctx.flags@.len() == 0,
    {
        HookOptions {
            files: None,
            all: false,
            fix: false,
            check: false,
            exclude: None,
            exclude_glob: None,
            from_ref: None,
            to_ref: None,
            glob: None,
            plan: false,
            step: Vec::new(),
            tctx: Context::new(),
        }
    }
}

/// `hk check`: runs the `check` hook.
#[derive(Debug)]
pub struct Check {
    pub hook: HookOptions,
}

/// `hk fix`: runs the `fix` hook.
#[derive(Debug)]
pub struct Fix {
    pub hook: HookOptions,
}

/// `hk run pre-commit`.
#[derive(Debug)]
pub struct PreCommit {
    pub hook: HookOptions,
}

/// `hk run commit-msg`, with the file that holds the message.
#[derive(Debug)]
pub struct CommitMsg {
    pub commit_msg_file: String,
    pub hook: HookOptions,
}

/// `hk run prepare-commit-msg`, with git's arguments.
#[derive(Debug)]
pub struct PrepareCommitMsg {
    pub commit_msg_file: String,
    pub source: Option<String>,
    pub sha: Option<String>,
    pub hook: HookOptions,
}

/// `hk run pre-push`, with the remote git pushes to.
#[derive(Debug)]
pub struct PrePush {
    pub remote: Option<String>,
    pub url: Option<String>,
    pub hook: HookOptions,
}

impl Check {
    pub fn invocation(self) -> (r: (String, HookOptions))
        ensures
            r.0@ == "check"@,
            r.1 == self.hook,
    {
        proof {
            reveal_strlit("check");
        }
        ("check".to_string(), self.hook)
    }
}

impl Fix {
    pub fn invocation(self) -> (r: (String, HookOptions))
        ensures
            r.0@ == "fix"@,
            r.1 == self.hook,
    {
        proof {
            reveal_strlit("fix");
        }
        ("fix".to_string(), self.hook)
    }
}

impl PreCommit {
    pub fn invocation(self) -> (r: (String, HookOptions))
        ensures
            r.0@ == "pre-commit"@,
            r.1 == self.hook,
    {
        proof {
            reveal_strlit("pre-commit");
        }
        ("pre-commit".to_string(), self.hook)
    }
}

impl CommitMsg {
    /// The `commit-msg` hook, with `commit_msg_file` set for templates.
    pub fn invocation(self) -> (r: (String, HookOptions))
        ensures
            r.0@ == "commit-msg"@,
            pair_views(r.1.tctx.text@) == pair_views(self.hook.tctx.text@).push(("commit_msg_file"@, self.commit_msg_file@)),
    {
        let mut hook = self.hook;
        hook.tctx.insert("commit_msg_file", self.commit_msg_file);
        proof {
            reveal_strlit("commit-msg");
            reveal_strlit("commit_msg_file");
        }
        ("commit-msg".to_string(), hook)
    }
}

impl PrepareCommitMsg {
    /// The `prepare-commit-msg` hook, with `commit_msg_file`, and `source`
    /// and `sha` where git passed them, set for templates.
    pub fn invocation(self) -> (r: (String, HookOptions))
        ensures
            r.0@ == "prepare-commit-msg"@,
            pair_views(r.1.tctx.text@) == {
                let a = pair_views(self.hook.tctx.text@).push(("commit_msg_file"@, self.commit_msg_file@));
                let b = match self.source { Some(s) => a.push(("source"@, s@)), None => a };
                match self.sha { Some(s) => b.push(("sha"@, s@)), None => b }
            },
    {
        let mut hook = self.hook;
        hook.tctx.insert("commit_msg_file", self.commit_msg_file);
        if let Some(s) = self.source {
            hook.tctx.insert("source", s);
        }
        if let Some(s) = self.sha {
            hook.tctx.insert("sha", s);
        }
        proof {
            reveal_strlit("prepare-commit-msg");
            reveal_strlit("commit_msg_file");
            reveal_strlit("source");
            reveal_strlit("sha");
        }
        ("prepare-commit-msg".to_string(), hook)
    }
}

/// A line git writes to a pre-push hook: the local ref and sha, then the
/// remote ref and sha.
#[derive(Debug)]
pub struct PrePushRefs {
    pub to_ref: String,
    pub to_sha: String,
    pub from_ref: String,
    pub from_sha: String,
}

/// The sha git gives for a ref that does not exist.
pub open spec fn zero_sha() -> Seq<char> {
    Seq::new(40, |i: int| '0')
}

/// The refs of one line, from its first four words; `None` where it has
/// fewer.
pub open spec fn spec_parse_push_line(line: Seq<char>) -> Option<(Seq<char>, Seq<char>, Seq<char>, Seq<char>)> {
    let w = whitespace_words(line);
    if w.len() < 4 { None } else { Some((w[0], w[1], w[2], w[3])) }
}

pub fn parse_push_line(line: &str) -> (r: Option<PrePushRefs>)
    ensures
        r is Some <==> spec_parse_push_line(line@) is Some,
        r matches Some(p) ==> spec_parse_push_line(line@) == Some((p.to_ref@, p.to_sha@, p.from_ref@, p.from_sha@)),
{
    let w = split_whitespace(line);
    if w.len() < 4 {
        return None;
    }
    proof {
        crate::text::lemma_views_index(w@);
    }
    Some(PrePushRefs { to_ref: w[0].clone(), to_sha: w[1].clone(), from_ref: w[2].clone(), from_sha: w[3].clone() })
}

fn is_zero_sha(s: &str) -> (r: bool)
    ensures
        r == (s@ == zero_sha()),
{
    let n = s.unicode_len();
    if n != 40 {
        return false;
    }
    let mut i: usize = 0;
    while i < n
        invariant
            n == s@.len(),
            n == 40,
            i <= n,
            forall|j: int| 0 <= j < i ==> s@[j] == '0',
        decreases n - i,
    {
        if s.get_char(i) != '0' {
            return false;
        }
        i += 1;
    }
    assert(s@ =~= zero_sha());
    true
}

/// Whether a pushed line counts: the remote sha is the zero sha (so the
/// remote ref does not exist yet) and the local one is not.
pub open spec fn push_line_kept(p: (Seq<char>, Seq<char>, Seq<char>, Seq<char>)) -> bool {
    p.1 == zero_sha() && p.3 != zero_sha()
}

/// The counted refs of the lines, in order: each non-empty line that has
/// four words and passes `push_line_kept`.
pub open spec fn spec_pushed(ls: Seq<Seq<char>>) -> Seq<(Seq<char>, Seq<char>, Seq<char>, Seq<char>)>
    decreases ls.len(),
{
    if ls.len() == 0 {
        Seq::empty()
    } else {
        let rest = spec_pushed(ls.drop_last());
        let l = ls.last();
        if l.len() > 0 && spec_parse_push_line(l) is Some && push_line_kept(spec_parse_push_line(l)->0) {
            rest.push(spec_parse_push_line(l)->0)
        } else {
            rest
        }
    }
}

pub open spec fn refs_views(v: Seq<PrePushRefs>) -> Seq<(Seq<char>, Seq<char>, Seq<char>, Seq<char>)> {
    v.map_values(|p: PrePushRefs| (p.to_ref@, p.to_sha@, p.from_ref@, p.from_sha@))
}

/// The counted refs of what git wrote to the hook, in order.
pub fn pushed_refs(input: &str) -> (r: Vec<PrePushRefs>)
    ensures
        refs_views(r@) == spec_pushed(spec_lines(input@)),
{
    let ls = lines(input);
    let mut out: Vec<PrePushRefs> = Vec::new();
    let mut i: usize = 0;
    while i < ls.len()
        invariant
            views(ls@) == spec_lines(input@),
            i <= ls@.len(),
            refs_views(out@) == spec_pushed(views(ls@.subrange(0, i as int))),
        decreases ls@.len() - i,
    {
        let ghost pre = views(ls@.subrange(0, i as int + 1));
        assert(pre.drop_last() =~= views(ls@.subrange(0, i as int)));
        assert(pre.last() == ls@[i as int]@);
        if ls[i].as_str().unicode_len() > 0 {
            if let Some(p) = parse_push_line(ls[i].as_str()) {
                if is_zero_sha(p.to_sha.as_str()) && !is_zero_sha(p.from_sha.as_str()) {
                    let ghost before = out@;
                    let ghost pv = (p.to_ref@, p.to_sha@, p.from_ref@, p.from_sha@);
                    out.push(p);
                    assert(refs_views(out@) =~= refs_views(before).push(pv));
                }
            }
        }
        i += 1;
    }
    assert(ls@.subrange(0, ls@.len() as int) =~= ls@);
    out
}

impl PrePush {
    /// The `pre-push` hook with its refs: an explicit from-ref wins, then
    /// the remote sha of the first counted pushed line, then the remote
    /// branch that matches the current one (`remote_branch`, looked up by
    /// the caller), then `refs/remotes/<remote>/HEAD` (remote `origin`
    /// unless given). An explicit to-ref wins, then the local sha of the
    /// first counted line, then `HEAD`.
    pub fn invocation(self, refs: &Vec<PrePushRefs>, remote_branch: Option<String>) -> (r: (String, HookOptions))
        ensures
            r.0@ == "pre-push"@,
            r.1.from_ref matches Some(f) && f@ == (match self.hook.from_ref {
                Some(f0) => f0@,
                None => if refs@.len() > 0 {
                    refs@[0].from_sha@
                } else {
                    match remote_branch {
                        Some(b) => b@,
                        None => "refs/remotes/"@ + (match self.remote { Some(x) => x@, None => "origin"@ }) + "/HEAD"@,
                    }
                },
            }),
            r.1.to_ref matches Some(t) && t@ == (match self.hook.to_ref {
                Some(t0) => t0@,
                None => if refs@.len() > 0 { refs@[0].to_sha@ } else { "HEAD"@ },
            }),
    {
        let mut hook = self.hook;
        let from = match hook.from_ref {
            Some(f) => f,
            None => if refs.len() > 0 {
                refs[0].from_sha.clone()
            } else {
                match remote_branch {
                    Some(b) => b,
                    None => {
                        let remote = match self.remote {
                            Some(x) => x,
                            None => "origin".to_string(),
                        };
                        let mut s = "refs/remotes/".to_string();
                        s.append(remote.as_str());
                        s.append("/HEAD");
                        s
                    },
                }
            },
        };
        let to = match hook.to_ref {
            Some(t) => t,
            None => if refs.len() > 0 { refs[0].to_sha.clone() } else { "HEAD".to_string() },
        };
        hook.from_ref = Some(from);
        hook.to_ref = Some(to);
        proof {
            reveal_strlit("pre-push");
            reveal_strlit("refs/remotes/");
            reveal_strlit("/HEAD");
            reveal_strlit("origin");
            reveal_strlit("HEAD");
        }
        ("pre-push".to_string(), hook)
    }
}

} // verus!
