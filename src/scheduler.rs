//! The decisions of a hook run, apart from the processes it spawns: which
//! step may start now, when a group is over, and how the run ends. The
//! caller performs each `Action::Start` and reports back with `finished`.
use vstd::prelude::*;

verus! {

/// Where one step stands in a run.
#[derive(Debug, Clone, Copy, PartialEq, Eq, Structural)]
pub enum StepState {
    Waiting,
    Running,
    Done,
}

/// How a run ended.
#[derive(Debug, Clone, Copy, PartialEq, Eq, Structural)]
pub enum Outcome {
    Success,
    /// The run stopped; the step with this index failed first.
    Failed(usize),
    /// The run was cancelled from outside before any step failed.
    Interrupted,
    /// Steps are left that wait on each other and can never start.
    Blocked,
}

/// What the caller does next.
#[derive(Debug, Clone, Copy, PartialEq, Eq, Structural)]
pub enum Action {
    /// Spawn the step with this index.
    Start(usize),
    /// Wait until a running step finishes.
    Wait,
    Finish(Outcome),
}

/// Steps of a hook, numbered in declaration order, each in a group. Groups
/// run one after another; within a group a step starts once every step it
/// depends on is done.
pub struct Scheduler {
    pub group_of: Vec<usize>,
    pub depends: Vec<Vec<usize>>,
    pub state: Vec<StepState>,
    pub num_groups: usize,
    pub current: usize,
    pub fail_fast: bool,
    pub cancelled: bool,
    pub failed: Option<usize>,
}

/// The shape of a run, before any state: each group index and dependency in
/// range, and each dependency inside its own step's group.
pub open spec fn layout_ok(group_of: Seq<usize>, depends: Seq<Vec<usize>>, num_groups: usize) -> bool {
    &&& group_of.len() == depends.len()
    &&& forall|i: int| 0 <= i < group_of.len() ==> group_of[i] < num_groups
    &&& forall|i: int, k: int|
        0 <= i < depends.len() && 0 <= k < depends[i]@.len() ==> {
            let d = #[trigger] depends[i]@[k];
            &&& d < group_of.len()
            &&& group_of[d as int] == group_of[i]
        }
}

impl Scheduler {
    pub open spec fn len(&self) -> nat {
        self.state@.len()
    }

    pub open spec fn deps_done(&self, i: int) -> bool {
        forall|k: int| 0 <= k < self.depends@[i]@.len()
            ==> self.state@[#[trigger] self.depends@[i]@[k] as int] == StepState::Done
    }

    pub open spec fn startable(&self, i: int) -> bool {
        &&& 0 <= i < self.len()
        &&& self.group_of@[i] == self.current
        &&& self.state@[i] == StepState::Waiting
        &&& self.deps_done(i)
    }

    pub open spec fn group_complete(&self, g: int) -> bool {
        forall|i: int| 0 <= i < self.len() && self.group_of@[i] == g
            ==> self.state@[i] == StepState::Done
    }

    pub open spec fn any_running(&self) -> bool {
        exists|i: int| 0 <= i < self.len() && self.state@[i] == StepState::Running
    }

    pub open spec fn any_startable(&self) -> bool {
        exists|i: int| self.startable(i)
    }

    /// The invariant of every state a run passes through.
    pub open spec fn wf(&self) -> bool {
        &&& layout_ok(self.group_of@, self.depends@, self.num_groups)
        &&& self.state@.len() == self.group_of@.len()
        &&& self.current <= self.num_groups
        // earlier groups are over
        &&& forall|i: int| 0 <= i < self.len() && self.group_of@[i] < self.current
            ==> self.state@[i] == StepState::Done
        // nothing of a later group has started
        &&& forall|i: int| 0 <= i < self.len() && self.group_of@[i] > self.current
            ==> self.state@[i] == StepState::Waiting
        // a step that started had its dependencies done
        &&& forall|i: int| 0 <= i < self.len() && self.state@[i] != StepState::Waiting
            ==> self.deps_done(i)
        &&& self.failed matches Some(f) ==> f < self.len() && self.state@[f as int] == StepState::Done
        // under fail-fast a failure has cancelled the run
        &&& (self.fail_fast && self.failed is Some) ==> self.cancelled
    }

    /// Everything but the states, the current group and the cancellation.
    pub open spec fn same_layout(&self, other: &Scheduler) -> bool {
        &&& self.group_of@ == other.group_of@
        &&& self.depends@ == other.depends@
        &&& self.num_groups == other.num_groups
        &&& self.fail_fast == other.fail_fast
    }

    /// A run in which no step has started, or `None` where the layout is
    /// not well formed.
    pub fn new(group_of: Vec<usize>, depends: Vec<Vec<usize>>, num_groups: usize, fail_fast: bool) -> (r: Option<Scheduler>)
        ensures
            r is Some <==> layout_ok(group_of@, depends@, num_groups),
            r matches Some(s) ==> {
                &&& s.wf()
                &&& s.group_of@ == group_of@
                &&& s.depends@ == depends@
                &&& s.num_groups == num_groups
                &&& s.fail_fast == fail_fast
                &&& s.current == 0
                &&& !s.cancelled
                &&& s.failed is None
                &&& forall|i: int| 0 <= i < s.len() ==> s.state@[i] == StepState::Waiting
            },
    {
        if group_of.len() != depends.len() {
            return None;
        }
        let n = group_of.len();
        let mut i: usize = 0;
        while i < n
            invariant
                n == group_of@.len(),
                n == depends@.len(),
                i <= n,
                forall|j: int| 0 <= j < i ==> group_of@[j] < num_groups,
                forall|j: int, k: int|
                    0 <= j < i && 0 <= k < depends@[j]@.len() ==> {
                        let d = #[trigger] depends@[j]@[k];
                        &&& d < n
                        &&& group_of@[d as int] == group_of@[j]
                    },
            decreases n - i,
        {
            if group_of[i] >= num_groups {
                return None;
            }
            let ds = &depends[i];
            let mut k: usize = 0;
            while k < ds.len()
                invariant
                    n == group_of@.len(),
                    n == depends@.len(),
                    i < n,
                    ds@ == depends@[i as int]@,
                    k <= ds@.len(),
                    forall|kk: int| 0 <= kk < k ==> {
                        let d = #[trigger] ds@[kk];
                        &&& d < n
                        &&& group_of@[d as int] == group_of@[i as int]
                    },
                decreases ds@.len() - k,
            {
                let d = ds[k];
                if d >= n || group_of[d] != group_of[i] {
                    assert(!layout_ok(group_of@, depends@, num_groups)) by {
                        assert(depends@[i as int]@[k as int] == d);
                    }
                    return None;
                }
                k += 1;
            }
            i += 1;
        }
        let mut state: Vec<StepState> = Vec::new();
        let mut j: usize = 0;
        while j < n
            invariant
                j <= n,
                state@.len() == j,
                forall|t: int| 0 <= t < j ==> state@[t] == StepState::Waiting,
            decreases n - j,
        {
            state.push(StepState::Waiting);
            j += 1;
        }
        let s = Scheduler {
            group_of,
            depends,
            state,
            num_groups,
            current: 0,
            fail_fast,
            cancelled: false,
            failed: None,
        };
        Some(s)
    }

    fn group_done(&self, g: usize) -> (r: bool)
        requires
            self.wf(),
        ensures
            r == self.group_complete(g as int),
    {
        let n = self.state.len();
        let mut i: usize = 0;
        while i < n
            invariant
                self.wf(),
                n == self.len(),
                i <= n,
                forall|j: int| 0 <= j < i && self.group_of@[j] == g ==> self.state@[j] == StepState::Done,
            decreases n - i,
        {
            if self.group_of[i] == g && self.state[i] != StepState::Done {
                return false;
            }
            i += 1;
        }
        true
    }

    fn has_running(&self) -> (r: bool)
        requires
            self.wf(),
        ensures
            r == self.any_running(),
    {
        let n = self.state.len();
        let mut i: usize = 0;
        while i < n
            invariant
                self.wf(),
                n == self.len(),
                i <= n,
                forall|j: int| 0 <= j < i ==> self.state@[j] != StepState::Running,
            decreases n - i,
        {
            if self.state[i] == StepState::Running {
                return true;
            }
            i += 1;
        }
        false
    }

    fn dependencies_done(&self, i: usize) -> (r: bool)
        requires
            self.wf(),
            i < self.len(),
        ensures
            r == self.deps_done(i as int),
    {
        let ds = &self.depends[i];
        let mut k: usize = 0;
        while k < ds.len()
            invariant
                self.wf(),
                i < self.len(),
                ds@ == self.depends@[i as int]@,
                k <= ds@.len(),
                forall|kk: int| 0 <= kk < k ==> self.state@[#[trigger] ds@[kk] as int] == StepState::Done,
            decreases ds@.len() - k,
        {
            let d = ds[k];
            assert(d == self.depends@[i as int]@[k as int]);
            if self.state[d] != StepState::Done {
                return false;
            }
            k += 1;
        }
        true
    }

    /// The first step of the current group that may start, if any.
    fn first_startable(&self) -> (r: Option<usize>)
        requires
            self.wf(),
        ensures
            r matches Some(i) ==> self.startable(i as int) && forall|j: int| 0 <= j < i ==> !self.startable(j),
            r is None ==> !self.any_startable(),
    {
        let n = self.state.len();
        let mut i: usize = 0;
        while i < n
            invariant
                self.wf(),
                n == self.len(),
                i <= n,
                forall|j: int| 0 <= j < i ==> !self.startable(j),
            decreases n - i,
        {
            if self.group_of[i] == self.current && self.state[i] == StepState::Waiting
                && self.dependencies_done(i) {
                return Some(i);
            }
            i += 1;
        }
        assert forall|j: int| !self.startable(j) by {
            if 0 <= j < n {
            }
        }
        None
    }

    /// Decides the next move of the run. Moves on to the next group only
    /// when every step of the current one is done and none has failed;
    /// starts nothing once the run is cancelled.
    pub fn next_action(&mut self) -> (r: Action)
        requires
            old(self).wf(),
        ensures
            final(self).wf(),
            final(self).same_layout(old(self)),
            final(self).cancelled == old(self).cancelled,
            final(self).failed == old(self).failed,
            old(self).current <= final(self).current,
            forall|g: int| old(self).current <= g < final(self).current ==> old(self).group_complete(g),
            final(self).current > old(self).current ==> !old(self).cancelled && old(self).failed is None,
            old(self).cancelled ==> final(self).current == old(self).current,
            // the run moves on past every group that is over
            (!old(self).cancelled && old(self).failed is None) ==> (final(self).current == final(self).num_groups
                || !final(self).group_complete(final(self).current as int)),
            old(self).cancelled ==> !(r is Start),
            match r {
                Action::Start(i) => {
                    &&& !old(self).cancelled
                    &&& old(self).state@[i as int] == StepState::Waiting
                    &&& final(self).state@ == old(self).state@.update(i as int, StepState::Running)
                    &&& final(self).group_of@[i as int] == final(self).current
                    &&& old(self).deps_done(i as int)
                    &&& forall|j: int| 0 <= j < i ==> !#[trigger] final(self).startable(j)
                },
                Action::Wait => {
                    &&& final(self).state@ == old(self).state@
                    &&& final(self).any_running()
                    &&& (!old(self).cancelled ==> !final(self).any_startable())
                },
                Action::Finish(o) => {
                    &&& final(self).state@ == old(self).state@
                    &&& !final(self).any_running()
                    &&& (!final(self).cancelled ==> !final(self).any_startable())
                    &&& o == final(self).spec_outcome()
                },
            },
    {
        if self.cancelled {
            if self.has_running() {
                return Action::Wait;
            }
            return Action::Finish(self.outcome());
        }
        while self.current < self.num_groups && self.failed.is_none() && self.group_done(self.current)
            invariant
                self.wf(),
                self.same_layout(old(self)),
                self.state@ == old(self).state@,
                self.cancelled == old(self).cancelled,
                !self.cancelled,
                self.failed == old(self).failed,
                old(self).current <= self.current,
                forall|g: int| old(self).current <= g < self.current ==> old(self).group_complete(g),
                self.current > old(self).current ==> old(self).failed is None,
            decreases self.num_groups - self.current,
        {
            let ghost prev = self.current;
            self.current = self.current + 1;
            assert forall|i: int| 0 <= i < self.len() && self.group_of@[i] > self.current
                implies self.state@[i] == StepState::Waiting by {
                assert(self.group_of@[i] > prev);
            }
        }
        let ghost settled = *self;
        match self.first_startable() {
            Some(i) => {
                self.state.set(i, StepState::Running);
                assert(self.wf()) by {
                    assert forall|j: int| 0 <= j < self.len() && self.state@[j] != StepState::Waiting
                        implies self.deps_done(j) by {
                        if j != i {
                            assert(settled.deps_done(j));
                            assert forall|k: int| 0 <= k < self.depends@[j]@.len()
                                implies self.state@[#[trigger] self.depends@[j]@[k] as int] == StepState::Done by {
                                assert(settled.state@[self.depends@[j]@[k] as int] == StepState::Done);
                            }
                        } else {
                            assert forall|k: int| 0 <= k < self.depends@[j]@.len()
                                implies self.state@[#[trigger] self.depends@[j]@[k] as int] == StepState::Done by {
                                assert(settled.state@[self.depends@[j]@[k] as int] == StepState::Done);
                            }
                        }
                    }
                }
                assert forall|j: int| 0 <= j < i implies !#[trigger] self.startable(j) by {
                    assert(!settled.startable(j));
                    if self.startable(j) {
                        assert forall|k: int| 0 <= k < self.depends@[j]@.len()
                            implies settled.state@[#[trigger] self.depends@[j]@[k] as int] == StepState::Done by {
                            assert(self.state@[self.depends@[j]@[k] as int] == StepState::Done);
                        }
                    }
                }
                Action::Start(i)
            },
            None => {
                if self.has_running() {
                    Action::Wait
                } else {
                    Action::Finish(self.outcome())
                }
            },
        }
    }

    /// How a run that has nothing left running ends, from its state.
    pub open spec fn spec_outcome(&self) -> Outcome {
        if self.failed is Some {
            Outcome::Failed(self.failed->0)
        } else if self.cancelled {
            Outcome::Interrupted
        } else if self.current >= self.num_groups {
            Outcome::Success
        } else {
            Outcome::Blocked
        }
    }

    fn outcome(&self) -> (r: Outcome)
        ensures
            r == self.spec_outcome(),
    {
        if let Some(f) = self.failed {
            Outcome::Failed(f)
        } else if self.cancelled {
            Outcome::Interrupted
        } else if self.current >= self.num_groups {
            Outcome::Success
        } else {
            Outcome::Blocked
        }
    }

    /// Records that the running step `i` has finished, successfully or
    /// not. A failure under fail-fast cancels the run.
    pub fn finished(&mut self, i: usize, ok: bool)
        requires
            old(self).wf(),
            i < old(self).len(),
            old(self).state@[i as int] == StepState::Running,
        ensures
            final(self).wf(),
            final(self).same_layout(old(self)),
            final(self).current == old(self).current,
            final(self).state@ == old(self).state@.update(i as int, StepState::Done),
            final(self).failed == (if !ok && old(self).failed is None { Some(i) } else { old(self).failed }),
            final(self).cancelled == (old(self).cancelled || (!ok && old(self).fail_fast)),
    {
        let ghost before = *self;
        self.state.set(i, StepState::Done);
        if !ok {
            if self.failed.is_none() {
                self.failed = Some(i);
            }
            if self.fail_fast {
                self.cancelled = true;
            }
        }
        assert forall|j: int| 0 <= j < self.len() && self.state@[j] != StepState::Waiting
            implies self.deps_done(j) by {
            assert(before.deps_done(j));
            assert forall|k: int| 0 <= k < self.depends@[j]@.len()
                implies self.state@[#[trigger] self.depends@[j]@[k] as int] == StepState::Done by {
                assert(before.state@[self.depends@[j]@[k] as int] == StepState::Done);
            }
        }
    }

    /// Cancels the run from outside (an interrupt): nothing more starts.
    pub fn cancel(&mut self)
        requires
            old(self).wf(),
        ensures
            final(self).wf(),
            final(self).same_layout(old(self)),
            final(self).cancelled,
            final(self).current == old(self).current,
            final(self).state@ == old(self).state@,
            final(self).failed == old(self).failed,
    {
        let ghost before = *self;
        self.cancelled = true;
        assert forall|j: int| 0 <= j < self.len() && self.state@[j] != StepState::Waiting
            implies self.deps_done(j) by {
            assert(before.deps_done(j));
        }
    }
}

/// Groups run in order: in any state of a run, a step that has started or
/// finished belongs to a group whose every earlier group is fully done.
pub proof fn lemma_group_ordering(s: &Scheduler, i: int, j: int)
    requires
        s.wf(),
        0 <= i < s.len(),
        0 <= j < s.len(),
        s.group_of@[i] < s.group_of@[j],
        s.state@[j] != StepState::Waiting,
    ensures
        s.state@[i] == StepState::Done,
{
}

/// Dependencies happen before: in any state of a run, a step that has
/// started finds every step it depends on done.
pub proof fn lemma_depends_happen_before(s: &Scheduler, i: int, k: int)
    requires
        s.wf(),
        0 <= i < s.len(),
        s.state@[i] != StepState::Waiting,
        0 <= k < s.depends@[i]@.len(),
    ensures
        s.state@[s.depends@[i]@[k] as int] == StepState::Done,
{
    assert(s.deps_done(i));
}

/// Fail-fast: in any state of a fail-fast run in which a step has failed,
/// the run is cancelled, so `next_action` starts no further step.
pub proof fn lemma_fail_fast_cancels(s: &Scheduler)
    requires
        s.wf(),
        s.fail_fast,
        s.failed is Some,
    ensures
        s.cancelled,
{
}

} // verus!
