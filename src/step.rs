use vstd::prelude::*;

use crate::error::Error;
use crate::template::{flag_views, join, pair_views, sh_quote, Context};
use crate::glob::{get_matches, get_non_matches, globs_compile, spec_matches, spec_non_matches};
use crate::run_type::{CheckType, RunType};
use crate::step_job::{files_within, StepJob, StepJobStatus};
use crate::text::{is_within, lemma_filter_step, lemma_views_full, parent_dir, path_within, strip_dir, strip_dir_exec, views, copy_strings, contains_str, all_in, none_in, dedup, is_negated, is_negated_exec, negated_name, negated_name_exec};

verus! {

/// A command, possibly with a variant per operating system.
#[derive(Debug, Clone, PartialEq, Eq)]
pub struct Script {
    pub linux: Option<String>,
    pub macos: Option<String>,
    pub windows: Option<String>,
    pub other: Option<String>,
}

/// The platform a script is rendered for.
#[derive(Debug, Clone, Copy, PartialEq, Eq, Structural)]
pub enum Platform {
    Linux,
    Macos,
    Windows,
    Other,
}

/// The kinds of file a step may restrict itself to.
#[derive(Debug, Clone, Copy, PartialEq, Eq, Structural)]
pub enum FileKind {
    Text,
    Binary,
    Executable,
    NotExecutable,
    Symlink,
    NotSymlink,
}

impl Script {
    /// The text that the script runs on `platform`: the platform's own
    /// variant if it has one, else the generic one, else the empty string.
    pub open spec fn spec_text(&self, platform: Platform) -> Seq<char> {
        let specific = match platform {
            Platform::Linux => self.linux,
            Platform::Macos => self.macos,
            Platform::Windows => self.windows,
            Platform::Other => None,
        };
        match specific {
            Some(s) => s@,
            None => match self.other {
                Some(o) => o@,
                None => Seq::empty(),
            },
        }
    }

    /// A script that runs `cmd` on every platform.
    pub fn from_command(cmd: String) -> (r: Script)
        ensures
            r.linux is None,
            r.macos is None,
            r.windows is None,
            r.other == Some(cmd),
    {
        Script { linux: None, macos: None, windows: None, other: Some(cmd) }
    }

    pub fn text(&self, platform: Platform) -> (r: String)
        ensures
            r@ == self.spec_text(platform),
    {
        let specific = match platform {
            Platform::Linux => &self.linux,
            Platform::Macos => &self.macos,
            Platform::Windows => &self.windows,
            Platform::Other => &None,
        };
        match specific {
            Some(s) => s.clone(),
            None => match &self.other {
                Some(o) => o.clone(),
                None => String::new(),
            },
        }
    }
}


/// Static description of one linter, formatter or script of a hook.
#[derive(Debug, Clone)]
pub struct Step {
    pub name: String,
    pub profiles: Option<Vec<String>>,
    pub glob: Option<Vec<String>>,
    pub interactive: bool,
    pub depends: Vec<String>,
    pub shell: Option<Script>,
    pub check: Option<Script>,
    pub check_list_files: Option<Script>,
    pub check_diff: Option<Script>,
    pub fix: Option<Script>,
    pub workspace_indicator: Option<String>,
    pub prefix: Option<String>,
    pub dir: Option<String>,
    pub condition: Option<String>,
    pub check_first: bool,
    pub batch: bool,
    pub stomp: bool,
    /// Environment entries in declaration order.
    pub env: Vec<(String, String)>,
    pub stage: Option<Vec<String>>,
    pub exclude: Option<Vec<String>>,
    pub exclusive: bool,
    pub root: Option<String>,
    pub hide: bool,
}

impl Default for Step {
    fn default() -> (r: Step)
        ensures
            r.name@ == Seq::<char>::empty(),
            r.profiles is None,
            r.glob is None,
            !r.interactive,
            r.depends@.len() == 0,
            r.shell is None,
            r.check is None,
            r.check_list_files is None,
            r.check_diff is None,
            r.fix is None,
            r.workspace_indicator is None,
            r.prefix is None,
            r.dir is None,
            r.condition is None,
            !r.check_first,
            !r.batch,
            !r.stomp,
            r.env@.len() == 0,
            r.stage is None,
            r.exclude is None,
            !r.exclusive,
            r.root is None,
            !r.hide,
    {
        Step {
            name: String::new(),
            profiles: None,
            glob: None,
            interactive: false,
            depends: Vec::new(),
            shell: None,
            check: None,
            check_list_files: None,
            check_diff: None,
            fix: None,
            workspace_indicator: None,
            prefix: None,
            dir: None,
            condition: None,
            check_first: false,
            batch: false,
            stomp: false,
            env: Vec::new(),
            stage: None,
            exclude: None,
            exclusive: false,
            root: None,
            hide: false,
        }
    }
}

pub open spec fn or_else<T>(a: Option<T>, b: Option<T>) -> Option<T> {
    if a is Some { a } else { b }
}

impl Step {
    /// The first check script present, in the order check, check_list_files,
    /// check_diff.
    pub open spec fn any_check(&self) -> Option<Script> {
        or_else(self.check, or_else(self.check_list_files, self.check_diff))
    }

    /// The script run for `run_type`: a fix runs `fix`, falling back to the
    /// checks; a check runs the script of its own kind, falling back to the
    /// other checks.
    pub open spec fn spec_run_cmd(&self, run_type: RunType) -> Option<Script> {
        match run_type {
            RunType::Fix => or_else(self.fix, self.any_check()),
            RunType::Check(k) => {
                let own = match k {
                    CheckType::Check => self.check,
                    CheckType::Diff => self.check_diff,
                    CheckType::ListFiles => self.check_list_files,
                };
                or_else(own, self.any_check())
            },
        }
    }

    /// The check variant preferred when a fix is demoted to a check.
    pub open spec fn spec_check_type(&self) -> CheckType {
        if self.check_diff is Some {
            CheckType::Diff
        } else if self.check_list_files is Some {
            CheckType::ListFiles
        } else {
            CheckType::Check
        }
    }

    /// Names the step and makes an interactive step exclusive.
    pub fn init(&mut self, name: &str)
        ensures
            final(self).name@ == name@,
            final(self).exclusive == (old(self).exclusive || old(self).interactive),
            final(self).interactive == old(self).interactive,
            final(self).depends == old(self).depends,
            final(self).glob == old(self).glob,
            final(self).fix == old(self).fix,
            final(self).check == old(self).check,
            final(self).check_diff == old(self).check_diff,
            final(self).check_list_files == old(self).check_list_files,
            final(self).check_first == old(self).check_first,
    {
        self.name = name.to_string();
        if self.interactive {
            self.exclusive = true;
        }
    }

    pub fn run_cmd(&self, run_type: RunType) -> (r: Option<&Script>)
        ensures
            r is Some <==> self.spec_run_cmd(run_type) is Some,
            r matches Some(s) ==> self.spec_run_cmd(run_type) == Some(*s),
    {
        let own = match run_type {
            RunType::Fix => &self.fix,
            RunType::Check(CheckType::Check) => &self.check,
            RunType::Check(CheckType::Diff) => &self.check_diff,
            RunType::Check(CheckType::ListFiles) => &self.check_list_files,
        };
        if let Some(s) = own {
            Some(s)
        } else if let Some(s) = &self.check {
            Some(s)
        } else if let Some(s) = &self.check_list_files {
            Some(s)
        } else if let Some(s) = &self.check_diff {
            Some(s)
        } else {
            None
        }
    }

    pub fn check_type(&self) -> (r: CheckType)
        ensures
            r == self.spec_check_type(),
    {
        if self.check_diff.is_some() {
            CheckType::Diff
        } else if self.check_list_files.is_some() {
            CheckType::ListFiles
        } else {
            CheckType::Check
        }
    }

    /// The files of the step: those under `dir` (made relative to it), then
    /// those its globs match, then those its excludes do not match. An
    /// invalid glob or exclude pattern gives `None`.
    pub open spec fn spec_filter_files(&self, files: Seq<Seq<char>>) -> Option<Seq<Seq<char>>> {
        let a = match self.dir {
            Some(d) => spec_in_dir(files, d@),
            None => files,
        };
        let b = match self.glob {
            Some(g) => if globs_compile(views(g@)) { Some(spec_matches(views(g@), a)) } else { None },
            None => Some(a),
        };
        match b {
            None => None,
            Some(b) => match self.exclude {
                Some(e) => if globs_compile(views(e@)) { Some(spec_non_matches(views(e@), b)) } else { None },
                None => Some(b),
            },
        }
    }

    /// Whether the step declares any of `dir`, `glob`, `exclude`.
    pub open spec fn filters_declared(&self) -> bool {
        self.glob is Some || self.dir is Some || self.exclude is Some
    }

    pub fn filter_files(&self, files: &Vec<String>) -> (r: Result<Vec<String>, Error>)
        ensures
            r is Ok <==> self.spec_filter_files(views(files@)) is Some,
            r matches Ok(v) ==> views(v@) == self.spec_filter_files(views(files@))->0,
    {
        let a = match &self.dir {
            Some(d) => in_dir(files, d),
            None => copy_strings(files),
        };
        assert(views(a@) == match self.dir { Some(d) => spec_in_dir(views(files@), d@), None => views(files@) });
        let b = match &self.glob {
            Some(g) => get_matches(g, &a)?,
            None => a,
        };
        match &self.exclude {
            Some(e) => get_non_matches(e, &b),
            None => Ok(b),
        }
    }

    /// Whether a job of this step in a run of `run_type` would run its check
    /// first, before knowing its files: check-first enabled, requested,
    /// with a fix and a check to demote it to, in a fix run.
    pub open spec fn spec_wants_check_first(&self, run_type: RunType, enabled: bool) -> bool {
        &&& enabled
        &&& self.check_first
        &&& self.fix is Some
        &&& self.any_check() is Some
        &&& run_type == RunType::Fix
    }

    /// The jobs of the step for files already passed through
    /// `filter_files`. With a workspace indicator, `indicators[i]` is the
    /// nearest indicator file above `files[i]`, if there is one; the step
    /// gets one job per distinct indicator, with the files under it. A batch
    /// step gets consecutive chunks of `max(1, len / jobs)` files. Otherwise
    /// one job gets every file. A job keeps check-first only if one of its
    /// files is in `contention`.
    pub fn build_step_jobs(
        &self,
        files: &Vec<String>,
        run_type: RunType,
        contention: &Vec<String>,
        jobs: usize,
        check_first_enabled: bool,
        indicators: &Vec<Option<String>>,
    ) -> (r: Vec<StepJob>)
        requires
            jobs > 0,
            self.workspace_indicator is Some ==> indicators@.len() == files@.len(),
        ensures
            self.spec_run_cmd(run_type) is None ==> r@.len() == 0,
            (files@.len() == 0 && self.filters_declared()) ==> r@.len() == 0,
            forall|k: int| 0 <= k < r@.len() ==> {
                &&& (#[trigger] r@[k]).run_type == run_type
                &&& r@[k].status == StepJobStatus::Pending
                &&& r@[k].check_first == (self.spec_wants_check_first(run_type, check_first_enabled)
                    && exists|j: int| 0 <= j < r@[k].files@.len() && views(contention@).contains(#[trigger] r@[k].files@[j]@))
            },
            (self.spec_run_cmd(run_type) is Some && !(files@.len() == 0 && self.filters_declared())) ==> {
                if self.workspace_indicator is Some {
                    let ws = spec_workspaces(indicators@);
                    &&& r@.len() == ws.len()
                    &&& forall|k: int| 0 <= k < r@.len() ==> {
                        &&& views((#[trigger] r@[k]).files@) == files_within(views(files@), parent_dir(ws[k]))
                        &&& r@[k].workspace_indicator matches Some(w) && w@ == ws[k]
                    }
                } else if self.batch {
                    let n = spec_chunk_size(files@.len(), jobs as nat);
                    &&& r@.len() * n >= files@.len()
                    &&& (r@.len() == 0 || (r@.len() - 1) * n < files@.len())
                    &&& forall|k: int| 0 <= k < r@.len() ==> {
                        &&& (#[trigger] r@[k]).files@ == files@.subrange(k * n, spec_min(k * n + n, files@.len() as int))
                        &&& r@[k].workspace_indicator is None
                    }
                } else {
                    &&& r@.len() == 1
                    &&& r@[0].files@ == files@
                    &&& r@[0].workspace_indicator is None
                }
            },
    {
        if self.run_cmd(run_type).is_none() || (files.len() == 0 && (self.glob.is_some() || self.dir.is_some() || self.exclude.is_some())) {
            return Vec::new();
        }
        let wants = check_first_enabled && self.check_first && self.fix.is_some()
            && (self.check.is_some() || self.check_diff.is_some() || self.check_list_files.is_some())
            && run_type.is_fix();
        let mut out: Vec<StepJob> = Vec::new();
        if self.workspace_indicator.is_some() {
            let ws = workspaces(indicators);
            let mut k: usize = 0;
            while k < ws.len()
                invariant
                    k <= ws@.len(),
                    views(ws@) == spec_workspaces(indicators@),
                    wants == self.spec_wants_check_first(run_type, check_first_enabled),
                    out@.len() == k,
                    forall|t: int| 0 <= t < k ==> {
                        &&& (#[trigger] out@[t]).run_type == run_type
                        &&& out@[t].status == StepJobStatus::Pending
                        &&& out@[t].check_first == (wants
                            && exists|j: int| 0 <= j < out@[t].files@.len() && views(contention@).contains(#[trigger] out@[t].files@[j]@))
                        &&& views(out@[t].files@) == files_within(views(files@), parent_dir(views(ws@)[t]))
                        &&& out@[t].workspace_indicator matches Some(w) && w@ == views(ws@)[t]
                    },
                decreases ws@.len() - k,
            {
                let mut job = StepJob::new(copy_strings(files), run_type, false).with_workspace_indicator(ws[k].clone());
                job.check_first = wants && intersects(&job.files, contention);
                assert(views(ws@)[k as int] == ws@[k as int]@);
                let ghost before = out@;
                out.push(job);
                assert(forall|t: int| 0 <= t < k ==> out@[t] == before[t]);
                let ghost added = out@[k as int];
                assert(added.run_type == run_type);
                assert(added.status == StepJobStatus::Pending);
                assert(views(added.files@) == files_within(views(files@), parent_dir(views(ws@)[k as int])));
                assert(added.workspace_indicator matches Some(w) && w@ == views(ws@)[k as int]);
                k += 1;
            }
        } else if self.batch {
            let n = chunk_size(files.len(), jobs);
            let len = files.len();
            let mut start: usize = 0;
            while start < len
                invariant
                    n == spec_chunk_size(len as nat, jobs as nat),
                    n >= 1,
                    len == files@.len(),
                    start == spec_min(out@.len() * n, len as int),
                    out@.len() == 0 || (out@.len() - 1) * n < len,
                    wants == self.spec_wants_check_first(run_type, check_first_enabled),
                    forall|t: int| 0 <= t < out@.len() ==> {
                        &&& (#[trigger] out@[t]).run_type == run_type
                        &&& out@[t].status == StepJobStatus::Pending
                        &&& out@[t].check_first == (wants
                            && exists|j: int| 0 <= j < out@[t].files@.len() && views(contention@).contains(#[trigger] out@[t].files@[j]@))
                        &&& out@[t].files@ == files@.subrange(t * n, spec_min(t * n + n, len as int))
                        &&& out@[t].workspace_indicator is None
                    },
                decreases len - start,
            {
                let end = if len - start < n { len } else { start + n };
                let chunk = slice_of(files, start, end);
                let cf = wants && intersects(&chunk, contention);
                let ghost t = out@.len();
                out.push(StepJob::new(chunk, run_type, cf));
                assert((t + 1) * n == t * n + n) by (nonlinear_arith);
                start = end;
            }
        } else {
            let cf = wants && intersects(files, contention);
            out.push(StepJob::new(copy_strings(files), run_type, cf));
        }
        out
    }

    /// The profiles that enable the step, without repeats.
    pub open spec fn spec_enabled_profiles(&self) -> Option<Seq<Seq<char>>> {
        match self.profiles {
            Some(ps) => Some(dedup(spec_enabling(views(ps@)))),
            None => None,
        }
    }

    /// The profiles that disable the step (named without their `!`), without
    /// repeats.
    pub open spec fn spec_disabled_profiles(&self) -> Option<Seq<Seq<char>>> {
        match self.profiles {
            Some(ps) => Some(dedup(spec_disabling(views(ps@)))),
            None => None,
        }
    }

    /// Whether the active profiles let the step run: every profile that
    /// enables it is active and none is disabled, and no profile that
    /// disables it is active.
    pub open spec fn spec_profile_enabled(&self, active: Seq<Seq<char>>, inactive: Seq<Seq<char>>) -> bool {
        match self.profiles {
            None => true,
            Some(ps) => {
                let en = spec_enabling(views(ps@));
                let dis = spec_disabling(views(ps@));
                &&& forall|i: int| 0 <= i < en.len() ==> active.contains(#[trigger] en[i])
                &&& forall|i: int| 0 <= i < en.len() ==> !inactive.contains(#[trigger] en[i])
                &&& forall|i: int| 0 <= i < dis.len() ==> !active.contains(#[trigger] dis[i])
            },
        }
    }

    pub fn enabled_profiles(&self) -> (r: Option<Vec<String>>)
        ensures
            r is Some <==> self.profiles is Some,
            r matches Some(v) ==> views(v@) == self.spec_enabled_profiles()->0,
    {
        match &self.profiles {
            Some(ps) => Some(dedup_exec(&enabling(ps))),
            None => None,
        }
    }

    pub fn disabled_profiles(&self) -> (r: Option<Vec<String>>)
        ensures
            r is Some <==> self.profiles is Some,
            r matches Some(v) ==> views(v@) == self.spec_disabled_profiles()->0,
    {
        match &self.profiles {
            Some(ps) => Some(dedup_exec(&disabling(ps))),
            None => None,
        }
    }

    /// Whether the step runs under the active profiles `active` and the
    /// explicitly disabled ones `inactive`.
    pub fn is_profile_enabled(&self, active: &Vec<String>, inactive: &Vec<String>) -> (r: bool)
        ensures
            r == self.spec_profile_enabled(views(active@), views(inactive@)),
    {
        match &self.profiles {
            None => true,
            Some(ps) => {
                let en = enabling(ps);
                let dis = disabling(ps);
                let r = all_in(&en, active) && none_in(&en, inactive) && none_in(&dis, active);
                proof {
                    crate::text::lemma_views_index(en@);
                    crate::text::lemma_views_index(dis@);
                }
                r
            },
        }
    }

    /// The command line of a run: the script for the run type on the
    /// platform, after the step's prefix and a space where it has one.
    pub open spec fn spec_command(&self, run_type: RunType, platform: Platform) -> Option<Seq<char>> {
        match self.spec_run_cmd(run_type) {
            None => None,
            Some(script) => Some(match self.prefix {
                Some(p) => p@ + seq![' '] + script.spec_text(platform),
                None => script.spec_text(platform),
            }),
        }
    }

    pub fn command(&self, run_type: RunType, platform: Platform) -> (r: Result<String, Error>)
        ensures
            r is Ok <==> self.spec_command(run_type, platform) is Some,
            r matches Ok(c) ==> self.spec_command(run_type, platform) == Some(c@),
            r matches Err(e) ==> e == Error::NoRunCommand(self.name),
    {
        match self.run_cmd(run_type) {
            None => Err(Error::NoRunCommand(self.name.clone())),
            Some(script) => {
                let text = script.text(platform);
                match &self.prefix {
                    Some(p) => {
                        let mut c = p.clone();
                        c.append(" ");
                        c.append(text.as_str());
                        proof {
                            reveal_strlit(" ");
                        }
                        Ok(c)
                    },
                    None => Ok(text),
                }
            },
        }
    }

    /// The program and arguments a command is handed to: the words of the
    /// step's shell, or `sh -o errexit -c`.
    pub open spec fn spec_shell_argv(&self, platform: Platform) -> Seq<Seq<char>> {
        match self.shell {
            Some(sh) => whitespace_words(sh.spec_text(platform)),
            None => seq!["sh"@, "-o"@, "errexit"@, "-c"@],
        }
    }

    pub fn shell_argv(&self, platform: Platform) -> (r: Vec<String>)
        ensures
            views(r@) == self.spec_shell_argv(platform),
    {
        match &self.shell {
            Some(sh) => split_whitespace(sh.text(platform).as_str()),
            None => {
                let v = vec!["sh".to_string(), "-o".to_string(), "errexit".to_string(), "-c".to_string()];
                proof {
                    reveal_strlit("sh");
                    reveal_strlit("-o");
                    reveal_strlit("errexit");
                    reveal_strlit("-c");
                }
                assert(views(v@) =~= seq!["sh"@, "-o"@, "errexit"@, "-c"@]);
                v
            },
        }
    }

    /// The template variables of a job: the base ones, the job's files
    /// quoted for the shell, its workspace where it has one, and the step's
    /// globs.
    pub fn job_context(&self, job: &StepJob, base: &Context) -> (r: Context)
        ensures
            pair_views(r.text@) == {
                let with_files = pair_views(base.text@).push(
                    ("files"@, join(views(job.files@).map_values(|f: Seq<char>| sh_quote(f)), seq![' '])),
                );
                let with_ws = match job.workspace_indicator {
                    Some(w) => with_files
                        .push(("workspace"@, if w@.len() == 0 { "."@ } else { parent_dir(w@) }))
                        .push(("workspace_indicator"@, w@)),
                    None => with_files,
                };
                with_ws.push(("globs"@, join(match self.glob { Some(g) => views(g@), None => Seq::empty() }, seq![' '])))
            },
            flag_views(r.flags@) == flag_views(base.flags@),
    {
        let mut ctx = base.copy();
        ctx.with_files(&job.files);
        if let Some(w) = &job.workspace_indicator {
            ctx.with_workspace_indicator(w.as_str());
        }
        match &self.glob {
            Some(g) => ctx.with_globs(g),
            None => {
                let none: Vec<String> = Vec::new();
                assert(views(none@) =~= Seq::<Seq<char>>::empty());
                ctx.with_globs(&none);
            },
        }
        ctx
    }
}

/// The files within `dir`, each made relative to it.
pub open spec fn spec_in_dir(files: Seq<Seq<char>>, dir: Seq<char>) -> Seq<Seq<char>> {
    files_within(files, dir).map_values(|f: Seq<char>| strip_dir(f, dir))
}

fn in_dir(files: &Vec<String>, dir: &String) -> (r: Vec<String>)
    ensures
        views(r@) == spec_in_dir(views(files@), dir@),
{
    let ghost p = |f: Seq<char>| path_within(f, dir@);
    let mut out: Vec<String> = Vec::new();
    let mut i: usize = 0;
    while i < files.len()
        invariant
            p == (|f: Seq<char>| path_within(f, dir@)),
            i <= files@.len(),
            views(out@) == views(files@.subrange(0, i as int)).filter(p).map_values(|f: Seq<char>| strip_dir(f, dir@)),
        decreases files@.len() - i,
    {
        proof {
            lemma_filter_step(files@, i as int, p);
        }
        if is_within(files[i].as_str(), dir.as_str()) {
            let f = strip_dir_exec(files[i].as_str(), dir.as_str());
            let ghost before = out@;
            let ghost kept = views(files@.subrange(0, i as int)).filter(p);
            out.push(f);
            assert(views(out@) =~= views(before).push(f@));
            assert(kept.push(files@[i as int]@).map_values(|f: Seq<char>| strip_dir(f, dir@))
                =~= kept.map_values(|f: Seq<char>| strip_dir(f, dir@)).push(f@));
        }
        i += 1;
    }
    proof {
        lemma_views_full(files@);
    }
    out
}

/// The distinct indicator files among `indicators`, in order of first
/// appearance.
pub open spec fn spec_workspaces(indicators: Seq<Option<String>>) -> Seq<Seq<char>>
    decreases indicators.len(),
{
    if indicators.len() == 0 {
        Seq::empty()
    } else {
        let w = spec_workspaces(indicators.drop_last());
        match indicators.last() {
            Some(x) => if w.contains(x@) { w } else { w.push(x@) },
            None => w,
        }
    }
}

fn workspaces(indicators: &Vec<Option<String>>) -> (r: Vec<String>)
    ensures
        views(r@) == spec_workspaces(indicators@),
{
    let mut out: Vec<String> = Vec::new();
    let mut i: usize = 0;
    while i < indicators.len()
        invariant
            i <= indicators@.len(),
            views(out@) == spec_workspaces(indicators@.subrange(0, i as int)),
        decreases indicators@.len() - i,
    {
        let ghost pre = indicators@.subrange(0, i as int + 1);
        assert(pre.drop_last() =~= indicators@.subrange(0, i as int));
        if let Some(w) = &indicators[i] {
            if !contains_str(&out, w) {
                let ghost before = out@;
                out.push(w.clone());
                assert(views(out@) =~= views(before).push(w@));
            }
        }
        i += 1;
    }
    assert(indicators@.subrange(0, indicators@.len() as int) =~= indicators@);
    out
}

/// Whether some file of `files` is in `set`.
pub fn intersects(files: &Vec<String>, set: &Vec<String>) -> (r: bool)
    ensures
        r == exists|j: int| 0 <= j < files@.len() && views(set@).contains(#[trigger] files@[j]@),
{
    let mut i: usize = 0;
    while i < files.len()
        invariant
            i <= files@.len(),
            forall|j: int| 0 <= j < i ==> !views(set@).contains(#[trigger] files@[j]@),
        decreases files@.len() - i,
    {
        if contains_str(set, &files[i]) {
            return true;
        }
        i += 1;
    }
    false
}

pub open spec fn spec_min(a: int, b: int) -> int {
    if a < b { a } else { b }
}

/// The size of a batch: the files shared among `jobs`, at least one.
pub open spec fn spec_chunk_size(len: nat, jobs: nat) -> nat {
    if jobs == 0 || len / jobs == 0 { 1 } else { len / jobs }
}

fn chunk_size(len: usize, jobs: usize) -> (r: usize)
    requires
        jobs > 0,
    ensures
        r == spec_chunk_size(len as nat, jobs as nat),
        r >= 1,
{
    let q = len / jobs;
    if q == 0 { 1 } else { q }
}

/// A copy of `v[start..end]`.
fn slice_of(v: &Vec<String>, start: usize, end: usize) -> (r: Vec<String>)
    requires
        start <= end <= v@.len(),
    ensures
        r@ == v@.subrange(start as int, end as int),
{
    let mut out: Vec<String> = Vec::new();
    let mut i: usize = start;
    while i < end
        invariant
            start <= i <= end,
            end <= v@.len(),
            out@ == v@.subrange(start as int, i as int),
        decreases end - i,
    {
        out.push(v[i].clone());
        assert(out@ =~= v@.subrange(start as int, i as int + 1));
        i += 1;
    }
    out
}

/// The entries of a profile list that enable.
pub open spec fn spec_enabling(ps: Seq<Seq<char>>) -> Seq<Seq<char>> {
    ps.filter(|p: Seq<char>| !is_negated(p))
}

/// The names that the `!` entries of a profile list disable.
pub open spec fn spec_disabling(ps: Seq<Seq<char>>) -> Seq<Seq<char>> {
    ps.filter(|p: Seq<char>| is_negated(p)).map_values(|p: Seq<char>| negated_name(p))
}

fn enabling(ps: &Vec<String>) -> (r: Vec<String>)
    ensures
        views(r@) == spec_enabling(views(ps@)),
{
    let ghost p = |q: Seq<char>| !is_negated(q);
    let mut out: Vec<String> = Vec::new();
    let mut i: usize = 0;
    while i < ps.len()
        invariant
            p == (|q: Seq<char>| !is_negated(q)),
            i <= ps@.len(),
            views(out@) == views(ps@.subrange(0, i as int)).filter(p),
        decreases ps@.len() - i,
    {
        proof {
            lemma_filter_step(ps@, i as int, p);
        }
        if !is_negated_exec(ps[i].as_str()) {
            let q = ps[i].clone();
            let ghost before = out@;
            out.push(q);
            assert(views(out@) =~= views(before).push(q@));
        }
        i += 1;
    }
    proof {
        lemma_views_full(ps@);
    }
    out
}

fn disabling(ps: &Vec<String>) -> (r: Vec<String>)
    ensures
        views(r@) == spec_disabling(views(ps@)),
{
    let ghost p = |q: Seq<char>| is_negated(q);
    let mut out: Vec<String> = Vec::new();
    let mut i: usize = 0;
    while i < ps.len()
        invariant
            p == (|q: Seq<char>| is_negated(q)),
            i <= ps@.len(),
            views(out@) == views(ps@.subrange(0, i as int)).filter(p).map_values(|q: Seq<char>| negated_name(q)),
        decreases ps@.len() - i,
    {
        proof {
            lemma_filter_step(ps@, i as int, p);
        }
        if is_negated_exec(ps[i].as_str()) {
            let q = negated_name_exec(ps[i].as_str());
            let ghost before = out@;
            let ghost kept = views(ps@.subrange(0, i as int)).filter(p);
            out.push(q);
            assert(views(out@) =~= views(before).push(q@));
            assert(kept.push(ps@[i as int]@).map_values(|q: Seq<char>| negated_name(q))
                =~= kept.map_values(|q: Seq<char>| negated_name(q)).push(q@));
        }
        i += 1;
    }
    proof {
        lemma_views_full(ps@);
    }
    out
}

fn dedup_exec(v: &Vec<String>) -> (r: Vec<String>)
    ensures
        views(r@) == dedup(views(v@)),
{
    let mut out: Vec<String> = Vec::new();
    let mut i: usize = 0;
    while i < v.len()
        invariant
            i <= v@.len(),
            views(out@) == dedup(views(v@.subrange(0, i as int))),
        decreases v@.len() - i,
    {
        assert(views(v@.subrange(0, i as int + 1)).drop_last() =~= views(v@.subrange(0, i as int)));
        if !contains_str(&out, &v[i]) {
            let q = v[i].clone();
            let ghost before = out@;
            out.push(q);
            assert(views(out@) =~= views(before).push(q@));
        }
        i += 1;
    }
    assert(v@.subrange(0, v@.len() as int) =~= v@);
    out
}

/// The words of a string, as `str::split_whitespace` gives them.
pub uninterp spec fn whitespace_words(s: Seq<char>) -> Seq<Seq<char>>;

/// Relies on str::split_whitespace: the words of the text between runs of
/// whitespace; they depend on the text alone.
#[verifier::external_body]
pub(crate) fn split_whitespace(s: &str) -> (r: Vec<String>)
    ensures
        views(r@) == whitespace_words(s@),
{
    s.split_whitespace().map(|w| w.to_string()).collect()
}

/// The error of a failed script: a failed check_list_files reports what it
/// printed, so that a check-first job can narrow its files; any other
/// failure reports the command and its output.
pub fn script_error(run_type: RunType, command: String, stdout: String, output: String) -> (r: Error)
    ensures
        run_type == RunType::Check(CheckType::ListFiles) ==> r == (Error::CheckListFailed { stdout }),
        run_type != RunType::Check(CheckType::ListFiles) ==> r == (Error::ScriptFailed { command, output }),
{
    match run_type {
        RunType::Check(CheckType::ListFiles) => Error::CheckListFailed { stdout },
        _ => Error::ScriptFailed { command, output },
    }
}

} // verus!
