//! The per-file lock table of a hook run: a file is held either by any
//! number of readers (check jobs) or by one writer (a fix job). A job takes
//! the locks of all its files at once or none of them; the caller waits and
//! tries again when a job releases its locks.
use vstd::prelude::*;

use crate::run_type::RunType;
use crate::text::views;

verus! {

/// The locks a job takes on its files.
#[derive(Debug, Clone, Copy, PartialEq, Eq, Structural)]
pub enum LockMode {
    /// A `stomp` step takes none.
    Unlocked,
    /// A check reads.
    Shared,
    /// A fix writes.
    Exclusive,
}

/// A stomp step locks nothing; otherwise a fix locks its files exclusively
/// and a check shares them.
pub fn lock_mode(stomp: bool, run_type: RunType) -> (r: LockMode)
    ensures
        r == (if stomp {
            LockMode::Unlocked
        } else if run_type == RunType::Fix {
            LockMode::Exclusive
        } else {
            LockMode::Shared
        }),
{
    if stomp {
        LockMode::Unlocked
    } else if run_type.is_fix() {
        LockMode::Exclusive
    } else {
        LockMode::Shared
    }
}

/// The locks of each path the run has seen, in the order the paths came.
pub struct FileRwLocks {
    pub paths: Vec<String>,
    pub readers: Vec<u64>,
    pub writer: Vec<bool>,
}

impl FileRwLocks {
    pub open spec fn wf(&self) -> bool {
        &&& self.readers@.len() == self.paths@.len()
        &&& self.writer@.len() == self.paths@.len()
        &&& views(self.paths@).no_duplicates()
        &&& forall|i: int| 0 <= i < self.paths@.len() && #[trigger] self.writer@[i] ==> self.readers@[i] == 0
    }

    pub open spec fn index_of(&self, p: Seq<char>) -> int {
        choose|i: int| 0 <= i < self.paths@.len() && self.paths@[i]@ == p
    }

    pub open spec fn known(&self, p: Seq<char>) -> bool {
        exists|i: int| 0 <= i < self.paths@.len() && self.paths@[i]@ == p
    }

    /// How many jobs read `p`.
    pub open spec fn readers_of(&self, p: Seq<char>) -> nat {
        if self.known(p) { self.readers@[self.index_of(p)] as nat } else { 0 }
    }

    /// Whether a job writes `p`.
    pub open spec fn written(&self, p: Seq<char>) -> bool {
        self.known(p) && self.writer@[self.index_of(p)]
    }

    proof fn lemma_index(&self, i: int)
        requires
            self.wf(),
            0 <= i < self.paths@.len(),
        ensures
            self.known(self.paths@[i]@),
            self.index_of(self.paths@[i]@) == i,
    {
        let p = self.paths@[i]@;
        assert(views(self.paths@)[i] == p);
        let j = self.index_of(p);
        assert(views(self.paths@)[j] == p);
    }

    fn find(&self, p: &String) -> (r: Option<usize>)
        requires
            self.wf(),
        ensures
            r matches Some(i) ==> i < self.paths@.len() && self.known(p@) && self.index_of(p@) == i,
            r is None ==> !self.known(p@),
    {
        let mut i: usize = 0;
        while i < self.paths.len()
            invariant
                self.wf(),
                i <= self.paths@.len(),
                forall|j: int| 0 <= j < i ==> self.paths@[j]@ != p@,
            decreases self.paths@.len() - i,
        {
            if self.paths[i] == *p {
                proof {
                    self.lemma_index(i as int);
                }
                return Some(i);
            }
            i += 1;
        }
        None
    }

    /// A table that knows `files` (each once), none of them locked.
    pub fn new(files: &Vec<String>) -> (r: FileRwLocks)
        ensures
            r.wf(),
            forall|p: Seq<char>| r.known(p) <==> views(files@).contains(p),
            forall|p: Seq<char>| r.readers_of(p) == 0 && !r.written(p),
    {
        let mut t = FileRwLocks { paths: Vec::new(), readers: Vec::new(), writer: Vec::new() };
        assert(views(t.paths@) =~= Seq::<Seq<char>>::empty());
        t.add_files(files);
        t
    }

    /// The paths the table knows, in order.
    pub fn files(&self) -> (r: Vec<String>)
        ensures
            r@ == self.paths@,
    {
        crate::text::copy_strings(&self.paths)
    }

    /// Makes `files` known, unlocked where they are new; paths come last,
    /// after those already known.
    pub fn add_files(&mut self, files: &Vec<String>)
        requires
            old(self).wf(),
        ensures
            final(self).wf(),
            forall|p: Seq<char>| final(self).known(p) <==> (old(self).known(p) || views(files@).contains(p)),
            forall|p: Seq<char>| final(self).readers_of(p) == old(self).readers_of(p),
            forall|p: Seq<char>| final(self).written(p) == old(self).written(p),
            final(self).paths@.subrange(0, old(self).paths@.len() as int) == old(self).paths@,
    {
        let ghost start = *self;
        let mut k: usize = 0;
        while k < files.len()
            invariant
                self.wf(),
                k <= files@.len(),
                start.paths@.len() <= self.paths@.len(),
                self.paths@.subrange(0, start.paths@.len() as int) == start.paths@,
                forall|i: int| 0 <= i < start.paths@.len() ==> self.readers@[i] == start.readers@[i] && self.writer@[i] == start.writer@[i],
                forall|i: int| start.paths@.len() <= i < self.paths@.len() ==> self.readers@[i] == 0 && !self.writer@[i],
                forall|i: int| start.paths@.len() <= i < self.paths@.len() ==> views(files@).contains(#[trigger] self.paths@[i]@),
                forall|j: int| 0 <= j < k ==> self.known(#[trigger] files@[j]@),
            decreases files@.len() - k,
        {
            if self.find(&files[k]).is_none() {
                let ghost before = *self;
                let f = files[k].clone();
                self.paths.push(f);
                self.readers.push(0);
                self.writer.push(false);
                assert(views(self.paths@) =~= views(before.paths@).push(f@));
                assert(self.paths@.subrange(0, start.paths@.len() as int) =~= before.paths@.subrange(0, start.paths@.len() as int));
                assert(views(files@).contains(f@)) by {
                    assert(views(files@)[k as int] == f@);
                }
                assert(self.paths@[self.paths@.len() - 1]@ == f@);
                assert forall|j: int| 0 <= j <= k implies self.known(#[trigger] files@[j]@) by {
                    if j < k {
                        assert(before.known(files@[j]@));
                        let i = choose|i: int| 0 <= i < before.paths@.len() && before.paths@[i]@ == files@[j]@;
                        assert(self.paths@[i]@ == files@[j]@);
                    } else {
                        assert(self.paths@[self.paths@.len() - 1]@ == files@[j]@);
                    }
                }
            }
            k += 1;
        }
        assert forall|p: Seq<char>| self.known(p) <==> (start.known(p) || views(files@).contains(p)) by {
            if start.known(p) {
                let i = choose|i: int| 0 <= i < start.paths@.len() && start.paths@[i]@ == p;
                assert(self.paths@[i] == start.paths@[i]);
            }
            if views(files@).contains(p) {
                let j = choose|j: int| 0 <= j < views(files@).len() && views(files@)[j] == p;
                assert(self.known(files@[j]@));
            }
            if self.known(p) && !start.known(p) {
                let i = choose|i: int| 0 <= i < self.paths@.len() && self.paths@[i]@ == p;
                if i < start.paths@.len() {
                    assert(self.paths@[i] == start.paths@[i]);
                }
            }
        }
        assert forall|p: Seq<char>| self.readers_of(p) == start.readers_of(p) && self.written(p) == start.written(p) by {
            if start.known(p) {
                let i = start.index_of(p);
                assert(self.paths@[i] == start.paths@[i]);
                self.lemma_index(i);
                start.lemma_index(i);
            } else if self.known(p) {
                let i = self.index_of(p);
                if i < start.paths@.len() {
                    assert(self.paths@[i] == start.paths@[i]);
                }
            }
        }
    }

    /// Sets the lock state of the path at `i`.
    fn update(&mut self, i: usize, r: u64, w: bool)
        requires
            old(self).wf(),
            i < old(self).paths@.len(),
            w ==> r == 0,
        ensures
            final(self).wf(),
            final(self).paths@ == old(self).paths@,
            forall|p: Seq<char>| final(self).known(p) == old(self).known(p),
            forall|p: Seq<char>| p != old(self).paths@[i as int]@ ==> final(self).readers_of(p) == old(self).readers_of(p) && final(self).written(p) == old(self).written(p),
            final(self).readers_of(old(self).paths@[i as int]@) == r,
            final(self).written(old(self).paths@[i as int]@) == w,
    {
        let ghost before = *self;
        proof {
            before.lemma_index(i as int);
        }
        self.readers.set(i, r);
        self.writer.set(i, w);
        proof {
            self.lemma_index(i as int);
        }
        assert forall|p: Seq<char>| p != before.paths@[i as int]@ implies self.readers_of(p) == before.readers_of(p) && self.written(p) == before.written(p) by {
            if before.known(p) {
                let j = before.index_of(p);
                before.lemma_index(j);
                self.lemma_index(j);
            }
        }
    }

    /// Takes the write lock of every file of `files`, or of none: all of
    /// them go to the caller exactly when no job reads or writes any of
    /// them.
    pub fn try_write_locks(&mut self, files: &Vec<String>) -> (r: bool)
        requires
            old(self).wf(),
        ensures
            final(self).wf(),
            r == forall|j: int| 0 <= j < files@.len() ==> !old(self).written(#[trigger] files@[j]@) && old(self).readers_of(files@[j]@) == 0,
            r ==> forall|p: Seq<char>| final(self).known(p) <==> (old(self).known(p) || views(files@).contains(p)),
            r ==> forall|p: Seq<char>| final(self).written(p) == (old(self).written(p) || views(files@).contains(p)),
            r ==> forall|p: Seq<char>| final(self).readers_of(p) == old(self).readers_of(p),
            !r ==> *final(self) == *old(self),
    {
        let mut j: usize = 0;
        while j < files.len()
            invariant
                self.wf(),
                j <= files@.len(),
                forall|t: int| 0 <= t < j ==> !self.written(#[trigger] files@[t]@) && self.readers_of(files@[t]@) == 0,
            decreases files@.len() - j,
        {
            match self.find(&files[j]) {
                Some(i) => {
                    if self.writer[i] || self.readers[i] > 0 {
                        return false;
                    }
                },
                None => {},
            }
            j += 1;
        }
        let ghost start = *self;
        self.add_files(files);
        let ghost added = *self;
        let mut k: usize = 0;
        while k < files.len()
            invariant
                self.wf(),
                k <= files@.len(),
                self.paths@ == added.paths@,
                forall|p: Seq<char>| self.known(p) == added.known(p),
                forall|p: Seq<char>| self.known(p) <==> (start.known(p) || views(files@).contains(p)),
                forall|p: Seq<char>| self.readers_of(p) == start.readers_of(p),
                forall|p: Seq<char>| self.written(p) == (start.written(p) || exists|t: int| 0 <= t < k && files@[t]@ == p),
                forall|t: int| 0 <= t < files@.len() ==> !start.written(#[trigger] files@[t]@) && start.readers_of(files@[t]@) == 0,
            decreases files@.len() - k,
        {
            assert(views(files@)[k as int] == files@[k as int]@);
            let i = match self.find(&files[k]) {
                Some(i) => i,
                None => {
                    assert(false);
                    0
                },
            };
            let ghost before = *self;
            self.update(i, 0, true);
            assert forall|p: Seq<char>| self.written(p) == (start.written(p) || exists|t: int| 0 <= t < k + 1 && files@[t]@ == p) by {
                if p != files@[k as int]@ {
                    if exists|t: int| 0 <= t < k + 1 && files@[t]@ == p {
                        let t = choose|t: int| 0 <= t < k + 1 && files@[t]@ == p;
                        assert(t < k);
                    }
                }
            }
            k += 1;
        }
        assert forall|p: Seq<char>| self.written(p) == (start.written(p) || views(files@).contains(p)) by {
            if views(files@).contains(p) {
                let t = choose|t: int| 0 <= t < views(files@).len() && views(files@)[t] == p;
                assert(files@[t]@ == p);
            }
            if exists|t: int| 0 <= t < files@.len() && files@[t]@ == p {
                let t = choose|t: int| 0 <= t < files@.len() && files@[t]@ == p;
                assert(views(files@)[t] == p);
            }
        }
        true
    }

    /// Gives back the write locks of `files`.
    pub fn release_write_locks(&mut self, files: &Vec<String>)
        requires
            old(self).wf(),
            forall|j: int| 0 <= j < files@.len() ==> old(self).written(#[trigger] files@[j]@),
        ensures
            final(self).wf(),
            forall|p: Seq<char>| final(self).known(p) == old(self).known(p),
            forall|p: Seq<char>| final(self).written(p) == (old(self).written(p) && !views(files@).contains(p)),
            forall|p: Seq<char>| final(self).readers_of(p) == old(self).readers_of(p),
    {
        let ghost start = *self;
        let mut k: usize = 0;
        while k < files.len()
            invariant
                self.wf(),
                k <= files@.len(),
                self.paths@ == start.paths@,
                forall|p: Seq<char>| self.known(p) == start.known(p),
                forall|p: Seq<char>| self.readers_of(p) == start.readers_of(p),
                forall|p: Seq<char>| self.written(p) == (start.written(p) && !exists|t: int| 0 <= t < k && files@[t]@ == p),
                forall|j: int| 0 <= j < files@.len() ==> start.written(#[trigger] files@[j]@),
                start.wf(),
            decreases files@.len() - k,
        {
            let i = match self.find(&files[k]) {
                Some(i) => i,
                None => {
                    assert(start.written(files@[k as int]@));
                    assert(false);
                    0
                },
            };
            assert(start.readers_of(files@[k as int]@) == 0) by {
                let t = start.index_of(files@[k as int]@);
                assert(start.writer@[t]);
            }
            self.update(i, 0, false);
            assert forall|p: Seq<char>| self.written(p) == (start.written(p) && !exists|t: int| 0 <= t < k + 1 && files@[t]@ == p) by {
                if p != files@[k as int]@ {
                    if exists|t: int| 0 <= t < k + 1 && files@[t]@ == p {
                        let t = choose|t: int| 0 <= t < k + 1 && files@[t]@ == p;
                        assert(t < k);
                    }
                }
            }
            k += 1;
        }
        assert forall|p: Seq<char>| self.written(p) == (start.written(p) && !views(files@).contains(p)) by {
            if views(files@).contains(p) {
                let t = choose|t: int| 0 <= t < views(files@).len() && views(files@)[t] == p;
                assert(files@[t]@ == p);
            }
            if exists|t: int| 0 <= t < files@.len() && files@[t]@ == p {
                let t = choose|t: int| 0 <= t < files@.len() && files@[t]@ == p;
                assert(views(files@)[t] == p);
            }
        }
    }

    /// Takes a read lock of every file of `files` (each listed once), or of
    /// none: all of them go to the caller exactly when no job writes any of
    /// them.
    pub fn try_read_locks(&mut self, files: &Vec<String>) -> (r: bool)
        requires
            old(self).wf(),
            views(files@).no_duplicates(),
        ensures
            final(self).wf(),
            r == forall|j: int| 0 <= j < files@.len() ==> !old(self).written(#[trigger] files@[j]@) && old(self).readers_of(files@[j]@) < u64::MAX,
            r ==> forall|p: Seq<char>| final(self).known(p) <==> (old(self).known(p) || views(files@).contains(p)),
            r ==> forall|p: Seq<char>| final(self).written(p) == old(self).written(p),
            r ==> forall|p: Seq<char>| final(self).readers_of(p) == old(self).readers_of(p) + (if views(files@).contains(p) { 1nat } else { 0nat }),
            !r ==> *final(self) == *old(self),
    {
        let mut j: usize = 0;
        while j < files.len()
            invariant
                self.wf(),
                j <= files@.len(),
                forall|t: int| 0 <= t < j ==> !self.written(#[trigger] files@[t]@) && self.readers_of(files@[t]@) < u64::MAX,
            decreases files@.len() - j,
        {
            match self.find(&files[j]) {
                Some(i) => {
                    if self.writer[i] || self.readers[i] == u64::MAX {
                        return false;
                    }
                },
                None => {},
            }
            j += 1;
        }
        let ghost start = *self;
        self.add_files(files);
        let ghost added = *self;
        let mut k: usize = 0;
        while k < files.len()
            invariant
                self.wf(),
                k <= files@.len(),
                views(files@).no_duplicates(),
                self.paths@ == added.paths@,
                forall|p: Seq<char>| self.known(p) <==> (start.known(p) || views(files@).contains(p)),
                forall|p: Seq<char>| self.written(p) == start.written(p),
                forall|p: Seq<char>| self.readers_of(p) == start.readers_of(p) + (if exists|t: int| 0 <= t < k && files@[t]@ == p { 1nat } else { 0nat }),
                forall|t: int| 0 <= t < files@.len() ==> !start.written(#[trigger] files@[t]@) && start.readers_of(files@[t]@) < u64::MAX,
            decreases files@.len() - k,
        {
            assert(views(files@)[k as int] == files@[k as int]@);
            let i = match self.find(&files[k]) {
                Some(i) => i,
                None => {
                    assert(false);
                    0
                },
            };
            let ghost fk = files@[k as int]@;
            assert(!exists|t: int| 0 <= t < k && files@[t]@ == fk) by {
                if exists|t: int| 0 <= t < k && files@[t]@ == fk {
                    let t = choose|t: int| 0 <= t < k && files@[t]@ == fk;
                    assert(views(files@)[t] == views(files@)[k as int]);
                }
            }
            assert(self.readers_of(fk) == start.readers_of(fk) + (if exists|t: int| 0 <= t < k && files@[t]@ == fk { 1nat } else { 0nat }));
            assert(self.readers@[i as int] == start.readers_of(fk));
            assert(!self.writer@[i as int]) by {
                assert(!start.written(files@[k as int]@));
            }
            let n = self.readers[i] + 1;
            self.update(i, n, false);
            assert forall|p: Seq<char>| self.readers_of(p) == start.readers_of(p) + (if exists|t: int| 0 <= t < k + 1 && files@[t]@ == p { 1nat } else { 0nat }) by {
                if p != fk {
                    if exists|t: int| 0 <= t < k + 1 && files@[t]@ == p {
                        let t = choose|t: int| 0 <= t < k + 1 && files@[t]@ == p;
                        assert(t < k);
                    }
                }
            }
            k += 1;
        }
        assert forall|p: Seq<char>| (exists|t: int| 0 <= t < files@.len() && files@[t]@ == p) == views(files@).contains(p) by {
            if views(files@).contains(p) {
                let t = choose|t: int| 0 <= t < views(files@).len() && views(files@)[t] == p;
                assert(files@[t]@ == p);
            }
            if exists|t: int| 0 <= t < files@.len() && files@[t]@ == p {
                let t = choose|t: int| 0 <= t < files@.len() && files@[t]@ == p;
                assert(views(files@)[t] == p);
            }
        }
        true
    }

    /// Gives back the read locks of `files` (each listed once).
    pub fn release_read_locks(&mut self, files: &Vec<String>)
        requires
            old(self).wf(),
            views(files@).no_duplicates(),
            forall|j: int| 0 <= j < files@.len() ==> old(self).readers_of(#[trigger] files@[j]@) >= 1,
        ensures
            final(self).wf(),
            forall|p: Seq<char>| final(self).known(p) == old(self).known(p),
            forall|p: Seq<char>| final(self).written(p) == old(self).written(p),
            forall|p: Seq<char>| final(self).readers_of(p) + (if views(files@).contains(p) { 1nat } else { 0nat }) == old(self).readers_of(p),
    {
        let ghost start = *self;
        let mut k: usize = 0;
        while k < files.len()
            invariant
                self.wf(),
                start.wf(),
                k <= files@.len(),
                views(files@).no_duplicates(),
                self.paths@ == start.paths@,
                forall|p: Seq<char>| self.known(p) == start.known(p),
                forall|p: Seq<char>| self.written(p) == start.written(p),
                forall|p: Seq<char>| self.readers_of(p) + (if exists|t: int| 0 <= t < k && files@[t]@ == p { 1nat } else { 0nat }) == start.readers_of(p),
                forall|j: int| 0 <= j < files@.len() ==> start.readers_of(#[trigger] files@[j]@) >= 1,
            decreases files@.len() - k,
        {
            let ghost fk = files@[k as int]@;
            assert(start.readers_of(fk) >= 1);
            let i = match self.find(&files[k]) {
                Some(i) => i,
                None => {
                    assert(false);
                    0
                },
            };
            assert(!exists|t: int| 0 <= t < k && files@[t]@ == fk) by {
                if exists|t: int| 0 <= t < k && files@[t]@ == fk {
                    let t = choose|t: int| 0 <= t < k && files@[t]@ == fk;
                    assert(views(files@)[t] == views(files@)[k as int]);
                }
            }
            assert(self.readers_of(fk) + 0 == start.readers_of(fk));
            assert(self.readers@[i as int] == start.readers_of(fk));
            assert(!self.writer@[i as int]) by {
                if self.writer@[i as int] {
                    assert(self.readers@[i as int] == 0);
                }
            }
            let n = self.readers[i] - 1;
            self.update(i, n, false);
            assert forall|p: Seq<char>| self.readers_of(p) + (if exists|t: int| 0 <= t < k + 1 && files@[t]@ == p { 1nat } else { 0nat }) == start.readers_of(p) by {
                if p != fk {
                    if exists|t: int| 0 <= t < k + 1 && files@[t]@ == p {
                        let t = choose|t: int| 0 <= t < k + 1 && files@[t]@ == p;
                        assert(t < k);
                    }
                } else {
                    assert(files@[k as int]@ == p);
                }
            }
            k += 1;
        }
        assert forall|p: Seq<char>| (exists|t: int| 0 <= t < files@.len() && files@[t]@ == p) == views(files@).contains(p) by {
            if views(files@).contains(p) {
                let t = choose|t: int| 0 <= t < views(files@).len() && views(files@)[t] == p;
                assert(files@[t]@ == p);
            }
            if exists|t: int| 0 <= t < files@.len() && files@[t]@ == p {
                let t = choose|t: int| 0 <= t < files@.len() && files@[t]@ == p;
                assert(views(files@)[t] == p);
            }
        }
    }
}

/// Mutual exclusion: a file that a job writes has no reader, and while it
/// is written no other job can take the locks of any list that holds it,
/// to read or to write.
pub proof fn lemma_write_is_exclusive(t: &FileRwLocks, files: Seq<String>, j: int)
    requires
        t.wf(),
        0 <= j < files.len(),
        t.written(files[j]@),
    ensures
        t.readers_of(files[j]@) == 0,
        !(forall|k: int| 0 <= k < files.len() ==> !t.written(#[trigger] files[k]@) && t.readers_of(files[k]@) == 0),
        !(forall|k: int| 0 <= k < files.len() ==> !t.written(#[trigger] files[k]@) && t.readers_of(files[k]@) < u64::MAX),
{
    let i = t.index_of(files[j]@);
    assert(t.writer@[i]);
}

} // verus!
