//! The decisions of a hook invocation around its groups: the run type,
//! which steps take part, where the files come from, and when there is
//! nothing to do.
use vstd::prelude::*;

use crate::error::Error;
use crate::glob::{get_non_matches, globs_compile, spec_non_matches};
use crate::run_type::{CheckType, RunType};
use crate::stash::StashMethod;
use crate::step::Step;
use crate::text::{contains_str, is_within, lemma_filter_step, lemma_views_full, path_within, views};

verus! {

broadcast use vstd::string::to_string_from_display_ensures_for_str;

pub open spec fn spec_run_type(name: Seq<char>, hook_fix: Option<bool>, env_fix: bool, opt_fix: bool) -> RunType {
    let fix = match hook_fix {
        Some(b) => b,
        None => name == "fix"@,
    };
    if (env_fix && fix) || opt_fix { RunType::Fix } else { RunType::Check(CheckType::Check) }
}

/// A hook fixes when asked to on the command line, or when it is a fixing
/// hook (declared so, or named `fix`) and fixing is not turned off in the
/// environment; otherwise it checks.
pub fn choose_run_type(name: &String, hook_fix: Option<bool>, env_fix: bool, opt_fix: bool) -> (r: RunType)
    ensures
        r == spec_run_type(name@, hook_fix, env_fix, opt_fix),
{
    let fix = match hook_fix {
        Some(b) => b,
        None => {
            let fix_name = "fix".to_string();
            proof {
                reveal_strlit("fix");
            }
            *name == fix_name
        },
    };
    if (env_fix && fix) || opt_fix {
        RunType::Fix
    } else {
        RunType::Check(CheckType::Check)
    }
}

/// The environment's stash method wins over the hook's; neither means no
/// stash.
pub fn choose_stash_method(env: Option<StashMethod>, hook: Option<StashMethod>) -> (r: StashMethod)
    ensures
        r == (match env {
            Some(m) => m,
            None => match hook {
                Some(m) => m,
                None => StashMethod::Disabled,
            },
        }),
{
    match env {
        Some(m) => m,
        None => match hook {
            Some(m) => m,
            None => StashMethod::Disabled,
        },
    }
}

/// Whether the hook is listed among those to skip.
pub fn hook_skipped(name: &String, skip_hooks: &Vec<String>) -> (r: bool)
    ensures
        r == views(skip_hooks@).contains(name@),
{
    contains_str(skip_hooks, name)
}

/// Whether a step takes part in a run: it is among the steps asked for (if
/// any were), has a script for the run type, is not skipped by name, and its
/// profiles are active.
pub open spec fn step_selected(step: Step, run_type: RunType, only: Seq<Seq<char>>, skip: Seq<Seq<char>>, active: Seq<Seq<char>>, inactive: Seq<Seq<char>>) -> bool {
    &&& (only.len() == 0 || only.contains(step.name@))
    &&& step.spec_run_cmd(run_type) is Some
    &&& !skip.contains(step.name@)
    &&& step.spec_profile_enabled(active, inactive)
}

/// The indices, in order, of the steps that take part in a run.
pub fn select_steps(
    steps: &Vec<Step>,
    run_type: RunType,
    only: &Vec<String>,
    skip: &Vec<String>,
    active: &Vec<String>,
    inactive: &Vec<String>,
) -> (r: Vec<usize>)
    ensures
        forall|a: int, b: int| 0 <= a < b < r@.len() ==> r@[a] < r@[b],
        forall|k: int| 0 <= k < r@.len() ==> r@[k] < steps@.len(),
        forall|i: int| 0 <= i < steps@.len() ==> (r@.contains(i as usize)
            <==> step_selected(#[trigger] steps@[i], run_type, views(only@), views(skip@), views(active@), views(inactive@))),
{
    let mut out: Vec<usize> = Vec::new();
    let mut i: usize = 0;
    while i < steps.len()
        invariant
            i <= steps@.len(),
            forall|a: int, b: int| 0 <= a < b < out@.len() ==> out@[a] < out@[b],
            forall|k: int| 0 <= k < out@.len() ==> out@[k] < i,
            forall|j: int| 0 <= j < i ==> (out@.contains(j as usize)
                <==> step_selected(#[trigger] steps@[j], run_type, views(only@), views(skip@), views(active@), views(inactive@))),
        decreases steps@.len() - i,
    {
        let step = &steps[i];
        let keep = (only.len() == 0 || contains_str(only, &step.name))
            && step.run_cmd(run_type).is_some()
            && !contains_str(skip, &step.name)
            && step.is_profile_enabled(active, inactive);
        let ghost before = out@;
        if keep {
            out.push(i);
        }
        assert forall|j: int| 0 <= j < i + 1 implies (out@.contains(j as usize)
            <==> step_selected(#[trigger] steps@[j], run_type, views(only@), views(skip@), views(active@), views(inactive@))) by {
            if j < i {
                if before.contains(j as usize) {
                    let k = choose|k: int| 0 <= k < before.len() && before[k] == j as usize;
                    assert(out@[k] == j as usize);
                }
                if out@.contains(j as usize) {
                    let k = choose|k: int| 0 <= k < out@.len() && out@[k] == j as usize;
                    if k == before.len() {
                        assert(out@[k] == i);
                    } else {
                        assert(before[k] == j as usize);
                    }
                }
            } else {
                if keep {
                    assert(out@[before.len() as int] == i);
                } else {
                    assert(out@ == before);
                }
            }
        }
        i += 1;
    }
    out
}

/// Whether a job goes ahead: not once the run is cancelled, and not when
/// its step's condition evaluated to false. Decided before any lock is
/// taken or process spawned.
pub fn should_run_job(cancelled: bool, condition: Option<bool>) -> (r: bool)
    ensures
        r == (!cancelled && condition != Some(false)),
{
    !cancelled && !matches!(condition, Some(false))
}

/// Where the files of a hook invocation come from.
#[derive(Debug, Clone, Copy, PartialEq, Eq, Structural)]
pub enum FileSource {
    /// The files named on the command line, directories expanded.
    Explicit,
    /// The tracked files that the command-line globs match.
    Glob,
    /// The files changed between two refs.
    BetweenRefs,
    /// Every tracked file.
    All,
    /// The staged files.
    Staged,
    /// The staged and the unstaged files.
    Modified,
}

/// The first source that applies, in the order explicit files, globs, a
/// pair of refs, all files, then staged files when stashing and staged with
/// unstaged files otherwise.
pub fn choose_file_source(has_files: bool, has_glob: bool, has_refs: bool, all: bool, stash: StashMethod) -> (r: FileSource)
    ensures
        r == (if has_files {
            FileSource::Explicit
        } else if has_glob {
            FileSource::Glob
        } else if has_refs {
            FileSource::BetweenRefs
        } else if all {
            FileSource::All
        } else if stash != StashMethod::Disabled {
            FileSource::Staged
        } else {
            FileSource::Modified
        }),
{
    if has_files {
        FileSource::Explicit
    } else if has_glob {
        FileSource::Glob
    } else if has_refs {
        FileSource::BetweenRefs
    } else if all {
        FileSource::All
    } else if stash != StashMethod::Disabled {
        FileSource::Staged
    } else {
        FileSource::Modified
    }
}

/// Whether a path lies under one of the excluded paths.
pub open spec fn excluded_by_prefix(f: Seq<char>, excludes: Seq<Seq<char>>) -> bool {
    exists|k: int| 0 <= k < excludes.len() && path_within(f, #[trigger] excludes[k])
}

fn under_any(f: &String, excludes: &Vec<String>) -> (r: bool)
    ensures
        r == excluded_by_prefix(f@, views(excludes@)),
{
    let mut k: usize = 0;
    while k < excludes.len()
        invariant
            k <= excludes@.len(),
            forall|j: int| 0 <= j < k ==> !path_within(f@, #[trigger] excludes@[j]@),
        decreases excludes@.len() - k,
    {
        if is_within(f.as_str(), excludes[k].as_str()) {
            assert(views(excludes@)[k as int] == excludes@[k as int]@);
            return true;
        }
        k += 1;
    }
    assert(!excluded_by_prefix(f@, views(excludes@))) by {
        crate::text::lemma_views_index(excludes@);
    }
    false
}

/// The files after the excludes: those under an excluded path go, then
/// those an exclude glob matches.
pub open spec fn spec_apply_excludes(files: Seq<Seq<char>>, excludes: Seq<Seq<char>>, exclude_glob: Option<Seq<Seq<char>>>) -> Option<Seq<Seq<char>>> {
    let kept = files.filter(|f: Seq<char>| !excluded_by_prefix(f, excludes));
    match exclude_glob {
        None => Some(kept),
        Some(g) => if globs_compile(g) { Some(spec_non_matches(g, kept)) } else { None },
    }
}

pub fn apply_excludes(files: &Vec<String>, excludes: &Vec<String>, exclude_glob: &Option<Vec<String>>) -> (r: Result<Vec<String>, Error>)
    ensures
        r is Ok <==> spec_apply_excludes(views(files@), views(excludes@), opt_views(*exclude_glob)) is Some,
        r matches Ok(v) ==> views(v@) == spec_apply_excludes(views(files@), views(excludes@), opt_views(*exclude_glob))->0,
{
    let ghost p = |f: Seq<char>| !excluded_by_prefix(f, views(excludes@));
    let mut kept: Vec<String> = Vec::new();
    let mut i: usize = 0;
    while i < files.len()
        invariant
            p == (|f: Seq<char>| !excluded_by_prefix(f, views(excludes@))),
            i <= files@.len(),
            views(kept@) == views(files@.subrange(0, i as int)).filter(p),
        decreases files@.len() - i,
    {
        proof {
            lemma_filter_step(files@, i as int, p);
        }
        if !under_any(&files[i], excludes) {
            let f = files[i].clone();
            let ghost before = kept@;
            kept.push(f);
            assert(views(kept@) =~= views(before).push(f@));
        }
        i += 1;
    }
    proof {
        lemma_views_full(files@);
    }
    match exclude_glob {
        None => Ok(kept),
        Some(g) => get_non_matches(g, &kept),
    }
}

pub open spec fn opt_views(o: Option<Vec<String>>) -> Option<Seq<Seq<char>>> {
    match o {
        Some(v) => Some(views(v@)),
        None => None,
    }
}

/// Whether a step would get no job on an empty file list: it filters its
/// files (and its patterns are valid), or splits them by workspace or into
/// batches, or has no script for the run.
pub open spec fn no_jobs_without_files(step: Step, run_type: RunType) -> bool {
    &&& step.spec_filter_files(Seq::empty()) is Some
    &&& (step.filters_declared() || step.workspace_indicator is Some || step.batch || step.spec_run_cmd(run_type) is None)
}

/// With no files, the hook has nothing to run when no step would get a job.
pub fn can_exit_early(steps: &Vec<Step>, run_type: RunType) -> (r: bool)
    ensures
        r == forall|i: int| 0 <= i < steps@.len() ==> no_jobs_without_files(#[trigger] steps@[i], run_type),
{
    let empty: Vec<String> = Vec::new();
    let mut i: usize = 0;
    while i < steps.len()
        invariant
            empty@.len() == 0,
            i <= steps@.len(),
            forall|j: int| 0 <= j < i ==> no_jobs_without_files(#[trigger] steps@[j], run_type),
        decreases steps@.len() - i,
    {
        let step = &steps[i];
        assert(views(empty@) =~= Seq::<Seq<char>>::empty());
        match step.filter_files(&empty) {
            Err(_) => {
                return false;
            },
            Ok(_) => {},
        }
        if !(step.glob.is_some() || step.dir.is_some() || step.exclude.is_some()
            || step.workspace_indicator.is_some() || step.batch || step.run_cmd(run_type).is_none()) {
            return false;
        }
        i += 1;
    }
    true
}

/// Whether a step re-stages files after its jobs: only after a fix run
/// that was not cancelled, and only with `stage` patterns.
pub fn needs_restage(step: &Step, run_type: RunType, cancelled: bool) -> (r: bool)
    ensures
        r == (run_type == RunType::Fix && !cancelled && (step.stage matches Some(s) && s@.len() > 0)),
{
    run_type.is_fix() && !cancelled && match &step.stage {
        Some(s) => s.len() > 0,
        None => false,
    }
}

} // verus!
