//! The status and counters of one step within a run, and the job counters
//! of the whole hook.
use vstd::prelude::*;

verus! {

/// Where a step stands. Only the first of finishing, failing or aborting
/// takes effect.
#[derive(Debug, Clone, PartialEq, Eq)]
pub enum StepStatus {
    Pending,
    Started,
    Aborted,
    Finished,
    Errored(String),
}

impl StepStatus {
    pub open spec fn is_open(&self) -> bool {
        self is Pending || self is Started
    }
}

/// What a step's progress line says besides its name.
#[derive(Debug, Clone, Copy, PartialEq, Eq, Structural)]
pub enum ProgressMessage {
    /// `job {0} of {1}`
    JobOf(usize, usize),
    /// `{0} file(s) modified`
    FilesModified(usize),
    Empty,
}

/// The state of one step in a run.
#[derive(Debug)]
pub struct StepContext {
    pub status: StepStatus,
    pub jobs_total: usize,
    pub jobs_remaining: usize,
    pub files_added: usize,
}

impl StepContext {
    pub fn new() -> (r: StepContext)
        ensures
            r.status == StepStatus::Pending,
            r.jobs_total == 0,
            r.jobs_remaining == 0,
            r.files_added == 0,
    {
        StepContext { status: StepStatus::Pending, jobs_total: 0, jobs_remaining: 0, files_added: 0 }
    }

    pub fn set_jobs_total(&mut self, count: usize)
        ensures
            final(self).jobs_total == count,
            final(self).jobs_remaining == count,
            final(self).status == old(self).status,
            final(self).files_added == old(self).files_added,
    {
        self.jobs_total = count;
        self.jobs_remaining = count;
    }

    /// Counts files re-staged by the step (saturating).
    pub fn add_files(&mut self, count: usize)
        ensures
            final(self).files_added == if old(self).files_added + count > usize::MAX { usize::MAX as int } else { old(self).files_added + count },
            final(self).status == old(self).status,
            final(self).jobs_total == old(self).jobs_total,
            final(self).jobs_remaining == old(self).jobs_remaining,
    {
        self.files_added = self.files_added.saturating_add(count);
    }

    pub fn decrement_job_count(&mut self)
        requires
            old(self).jobs_remaining > 0,
        ensures
            final(self).jobs_remaining == old(self).jobs_remaining - 1,
            final(self).jobs_total == old(self).jobs_total,
            final(self).status == old(self).status,
            final(self).files_added == old(self).files_added,
    {
        self.jobs_remaining = self.jobs_remaining - 1;
    }

    pub fn status_started(&mut self)
        ensures
            final(self).status == (if old(self).status is Pending { StepStatus::Started } else { old(self).status }),
    {
        if matches!(self.status, StepStatus::Pending) {
            self.status = StepStatus::Started;
        }
    }

    pub fn status_aborted(&mut self)
        ensures
            final(self).status == (if old(self).status.is_open() { StepStatus::Aborted } else { old(self).status }),
    {
        if matches!(self.status, StepStatus::Pending | StepStatus::Started) {
            self.status = StepStatus::Aborted;
        }
    }

    pub fn status_errored(&mut self, err: String)
        ensures
            final(self).status == (if old(self).status.is_open() { StepStatus::Errored(err) } else { old(self).status }),
    {
        if matches!(self.status, StepStatus::Pending | StepStatus::Started) {
            self.status = StepStatus::Errored(err);
        }
    }

    pub fn status_finished(&mut self)
        ensures
            final(self).status == (if old(self).status.is_open() { StepStatus::Finished } else { old(self).status }),
    {
        if matches!(self.status, StepStatus::Pending | StepStatus::Started) {
            self.status = StepStatus::Finished;
        }
    }

    /// The job being run while several remain, else the files modified.
    pub fn progress_message(&self) -> (r: ProgressMessage)
        requires
            self.jobs_remaining <= self.jobs_total,
        ensures
            r == (if self.jobs_total > 1 && self.jobs_remaining > 0 {
                ProgressMessage::JobOf((self.jobs_total - self.jobs_remaining + 1) as usize, self.jobs_total)
            } else if self.files_added > 0 {
                ProgressMessage::FilesModified(self.files_added)
            } else {
                ProgressMessage::Empty
            }),
    {
        if self.jobs_total > 1 && self.jobs_remaining > 0 {
            ProgressMessage::JobOf(self.jobs_total - self.jobs_remaining + 1, self.jobs_total)
        } else if self.files_added > 0 {
            ProgressMessage::FilesModified(self.files_added)
        } else {
            ProgressMessage::Empty
        }
    }
}

/// A step's state after its first terminal transition stays as it is.
pub proof fn lemma_terminal_is_final(s: StepStatus)
    requires
        !s.is_open(),
    ensures
        (if s is Pending { StepStatus::Started } else { s }) == s,
        (if s.is_open() { StepStatus::Finished } else { s }) == s,
        (if s.is_open() { StepStatus::Aborted } else { s }) == s,
{
}

/// The job counts of a whole hook run.
#[derive(Debug)]
pub struct JobCounters {
    pub total: usize,
    pub completed: usize,
}

impl JobCounters {
    pub fn new(total: usize) -> (r: JobCounters)
        ensures
            r.total == total,
            r.completed == 0,
    {
        JobCounters { total, completed: 0 }
    }

    pub fn inc_total_jobs(&mut self, n: usize)
        requires
            old(self).total + n <= usize::MAX,
        ensures
            final(self).total == old(self).total + n,
            final(self).completed == old(self).completed,
    {
        self.total = self.total + n;
    }

    pub fn dec_total_jobs(&mut self, n: usize)
        requires
            old(self).total >= n,
        ensures
            final(self).total == old(self).total - n,
            final(self).completed == old(self).completed,
    {
        self.total = self.total - n;
    }

    pub fn inc_completed_jobs(&mut self, n: usize)
        requires
            old(self).completed + n <= usize::MAX,
        ensures
            final(self).completed == old(self).completed + n,
            final(self).total == old(self).total,
    {
        self.completed = self.completed + n;
    }
}

} // verus!
