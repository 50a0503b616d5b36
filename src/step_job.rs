//! One runnable unit of a step: the files it is handed and how it runs.
use vstd::prelude::*;

use crate::run_type::RunType;
use crate::text::{is_within, parent_dir, parent_dir_exec, path_within, views};

verus! {

/// Where a job stands. A started job holds its file locks.
#[derive(Debug, Clone, PartialEq, Eq)]
pub enum StepJobStatus {
    Pending,
    Started,
    Finished,
    Errored(String),
}

/// A job: the files of one invocation of a step's script.
#[derive(Debug)]
pub struct StepJob {
    pub files: Vec<String>,
    pub run_type: RunType,
    /// Run the step's check first, and the fix only if the check fails.
    pub check_first: bool,
    pub workspace_indicator: Option<String>,
    pub status: StepJobStatus,
}

/// The files of `files` that lie in `dir`, in order.
pub open spec fn files_within(files: Seq<Seq<char>>, dir: Seq<char>) -> Seq<Seq<char>> {
    files.filter(|f: Seq<char>| path_within(f, dir))
}

impl StepJob {
    pub fn new(files: Vec<String>, run_type: RunType, check_first: bool) -> (r: StepJob)
        ensures
            r.files@ == files@,
            r.run_type == run_type,
            r.check_first == check_first,
            r.workspace_indicator is None,
            r.status == StepJobStatus::Pending,
    {
        StepJob { files, run_type, check_first, workspace_indicator: None, status: StepJobStatus::Pending }
    }

    /// The job restricted to the workspace whose indicator file is
    /// `workspace_indicator`: only the files under that file's directory.
    pub fn with_workspace_indicator(self, workspace_indicator: String) -> (r: StepJob)
        ensures
            views(r.files@) == files_within(views(self.files@), parent_dir(workspace_indicator@)),
            r.workspace_indicator == Some(workspace_indicator),
            r.run_type == self.run_type,
            r.check_first == self.check_first,
            r.status == self.status,
    {
        let dir = parent_dir_exec(workspace_indicator.as_str());
        let ghost p = |f: Seq<char>| path_within(f, dir@);
        let mut kept: Vec<String> = Vec::new();
        let mut i: usize = 0;
        while i < self.files.len()
            invariant
                p == (|f: Seq<char>| path_within(f, dir@)),
                i <= self.files@.len(),
                views(kept@) == views(self.files@.subrange(0, i as int)).filter(p),
            decreases self.files@.len() - i,
        {
            proof {
                crate::text::lemma_filter_step(self.files@, i as int, p);
            }
            if is_within(self.files[i].as_str(), dir.as_str()) {
                let f = self.files[i].clone();
                let ghost before = kept@;
                kept.push(f);
                assert(views(kept@) =~= views(before).push(f@));
            }
            i += 1;
        }
        proof {
            crate::text::lemma_views_full(self.files@);
        }
        StepJob {
            files: kept,
            run_type: self.run_type,
            check_first: self.check_first,
            workspace_indicator: Some(workspace_indicator),
            status: self.status,
        }
    }

    /// Marks a pending job started; a started one stays as it is.
    pub fn status_start(&mut self)
        requires
            old(self).status is Pending || old(self).status is Started,
        ensures
            final(self).status is Started,
            final(self).files == old(self).files,
            final(self).run_type == old(self).run_type,
            final(self).check_first == old(self).check_first,
    {
        self.status = StepJobStatus::Started;
    }

    pub fn status_finished(&mut self)
        requires
            old(self).status is Started,
        ensures
            final(self).status is Finished,
            final(self).files == old(self).files,
            final(self).run_type == old(self).run_type,
    {
        self.status = StepJobStatus::Finished;
    }

    pub fn status_errored(&mut self, err: String)
        requires
            old(self).status is Pending || old(self).status is Started,
        ensures
            final(self).status == StepJobStatus::Errored(err),
            final(self).files == old(self).files,
            final(self).run_type == old(self).run_type,
    {
        self.status = StepJobStatus::Errored(err);
    }
}

} // verus!
