//! The check-first optimisation: a fix job whose files another fixer may
//! touch runs its check first; a passing check skips the fix, a failing
//! check_list_files narrows the fix to the files it listed.
use vstd::prelude::*;

use crate::run_type::RunType;
use crate::step::Step;
use crate::step_job::StepJob;
use crate::text::{contains_str, views};

verus! {

/// How the check of a check-first job ended.
#[derive(Debug, Clone, Copy, PartialEq, Eq, Structural)]
pub enum CheckOutcome {
    Passed,
    /// A check_list_files script failed and listed files.
    ListFailed,
    /// The check failed otherwise.
    Failed,
}

/// The files of `files` whose canonical form (`canonical`, index for index)
/// is among `listed`, in order.
pub open spec fn spec_narrow(files: Seq<Seq<char>>, canonical: Seq<Seq<char>>, listed: Seq<Seq<char>>) -> Seq<Seq<char>>
    decreases files.len(),
{
    if files.len() == 0 {
        Seq::empty()
    } else {
        let rest = spec_narrow(files.drop_last(), canonical.drop_last(), listed);
        if listed.contains(canonical.last()) {
            rest.push(files.last())
        } else {
            rest
        }
    }
}

/// A narrowed fix gets exactly the job's files whose canonical form the
/// failed check listed: the intersection of what was listed with the job's
/// files.
pub proof fn lemma_narrow_is_intersection(files: Seq<Seq<char>>, canonical: Seq<Seq<char>>, listed: Seq<Seq<char>>, f: Seq<char>)
    requires
        canonical.len() == files.len(),
    ensures
        spec_narrow(files, canonical, listed).contains(f)
            <==> exists|i: int| 0 <= i < files.len() && files[i] == f && listed.contains(#[trigger] canonical[i]),
    decreases files.len(),
{
    if files.len() > 0 {
        let n = files.len() - 1;
        lemma_narrow_is_intersection(files.drop_last(), canonical.drop_last(), listed, f);
        let rest = spec_narrow(files.drop_last(), canonical.drop_last(), listed);
        if spec_narrow(files, canonical, listed).contains(f) {
            if !rest.contains(f) {
                assert(files[n] == f && listed.contains(canonical[n]));
            } else {
                let i = choose|i: int| 0 <= i < files.drop_last().len() && files.drop_last()[i] == f && listed.contains(#[trigger] canonical.drop_last()[i]);
                assert(files[i] == f && listed.contains(canonical[i]));
            }
        }
        if exists|i: int| 0 <= i < files.len() && files[i] == f && listed.contains(#[trigger] canonical[i]) {
            let i = choose|i: int| 0 <= i < files.len() && files[i] == f && listed.contains(#[trigger] canonical[i]);
            if i == n {
                assert(spec_narrow(files, canonical, listed).last() == f);
            } else {
                assert(files.drop_last()[i] == f && listed.contains(canonical.drop_last()[i]));
                assert(rest.contains(f));
                let k = choose|k: int| 0 <= k < rest.len() && rest[k] == f;
                assert(spec_narrow(files, canonical, listed)[k] == f);
            }
        }
    }
}

/// The job's files that the failed check listed: `files[i]` stays where
/// `canonical[i]` is in `listed`.
pub fn narrow_files(files: &Vec<String>, canonical: &Vec<String>, listed: &Vec<String>) -> (r: Vec<String>)
    requires
        canonical@.len() == files@.len(),
    ensures
        views(r@) == spec_narrow(views(files@), views(canonical@), views(listed@)),
{
    let mut out: Vec<String> = Vec::new();
    let mut i: usize = 0;
    while i < files.len()
        invariant
            canonical@.len() == files@.len(),
            i <= files@.len(),
            views(out@) == spec_narrow(views(files@.subrange(0, i as int)), views(canonical@.subrange(0, i as int)), views(listed@)),
        decreases files@.len() - i,
    {
        assert(views(files@.subrange(0, i as int + 1)).drop_last() =~= views(files@.subrange(0, i as int)));
        assert(views(canonical@.subrange(0, i as int + 1)).drop_last() =~= views(canonical@.subrange(0, i as int)));
        if contains_str(listed, &canonical[i]) {
            let f = files[i].clone();
            let ghost before = out@;
            out.push(f);
            assert(views(out@) =~= views(before).push(f@));
        }
        i += 1;
    }
    assert(files@.subrange(0, files@.len() as int) =~= files@);
    assert(canonical@.subrange(0, canonical@.len() as int) =~= canonical@);
    out
}

/// The listed paths that are not among the job's canonical files, in order.
pub fn unlisted(canonical: &Vec<String>, listed: &Vec<String>) -> (r: Vec<String>)
    ensures
        views(r@) == views(listed@).filter(|l: Seq<char>| !views(canonical@).contains(l)),
{
    let ghost p = |l: Seq<char>| !views(canonical@).contains(l);
    let mut out: Vec<String> = Vec::new();
    let mut i: usize = 0;
    while i < listed.len()
        invariant
            p == (|l: Seq<char>| !views(canonical@).contains(l)),
            i <= listed@.len(),
            views(out@) == views(listed@.subrange(0, i as int)).filter(p),
        decreases listed@.len() - i,
    {
        proof {
            crate::text::lemma_filter_step(listed@, i as int, p);
        }
        if !contains_str(canonical, &listed[i]) {
            let l = listed[i].clone();
            let ghost before = out@;
            out.push(l);
            assert(views(out@) =~= views(before).push(l@));
        }
        i += 1;
    }
    proof {
        crate::text::lemma_views_full(listed@);
    }
    out
}

impl Step {
    /// How a job runs first: as the step's preferred check when it runs
    /// check-first, else as its own run type.
    pub fn first_run_type(&self, job: &StepJob) -> (r: RunType)
        ensures
            r == if job.check_first { RunType::Check(self.spec_check_type()) } else { job.run_type },
    {
        if job.check_first {
            RunType::Check(self.check_type())
        } else {
            job.run_type
        }
    }
}

/// After the check of a check-first job, whether the fix still runs. A
/// passed check settles the job: no fix runs and the job is left as it
/// was. A failed check_list_files narrows the job to the listed files
/// (`listed` holds the canonical form of each line it printed, `canonical`
/// that of each job file). Any other failure keeps every file.
pub fn after_check(job: &mut StepJob, outcome: CheckOutcome, canonical: &Vec<String>, listed: &Vec<String>) -> (run_fix: bool)
    requires
        old(job).check_first,
        canonical@.len() == old(job).files@.len(),
    ensures
        run_fix == (outcome != CheckOutcome::Passed),
        final(job).run_type == old(job).run_type,
        final(job).check_first == old(job).check_first,
        final(job).workspace_indicator == old(job).workspace_indicator,
        final(job).status == old(job).status,
        outcome == CheckOutcome::ListFailed ==> views(final(job).files@) == spec_narrow(views(old(job).files@), views(canonical@), views(listed@)),
        outcome != CheckOutcome::ListFailed ==> final(job).files@ == old(job).files@,
{
    match outcome {
        CheckOutcome::Passed => false,
        CheckOutcome::ListFailed => {
            job.files = narrow_files(&job.files, canonical, listed);
            true
        },
        CheckOutcome::Failed => true,
    }
}

} // verus!
