//! Dependencies between the steps of a group: each name is resolved to a
//! step of the same group, and each step is a latch that is done once.
use vstd::prelude::*;

use crate::error::Error;
use crate::text::views;

verus! {

/// `names[j]` names a step of the group of step `i`.
pub open spec fn names_sibling(names: Seq<String>, group_of: Seq<usize>, i: int, j: int, d: Seq<char>) -> bool {
    0 <= j < names.len() && names[j]@ == d && group_of[j] == group_of[i]
}

/// Some step of the group of step `i` is named `d`.
pub open spec fn resolvable(names: Seq<String>, group_of: Seq<usize>, i: int, d: Seq<char>) -> bool {
    exists|j: int| names_sibling(names, group_of, i, j, d)
}

/// Every dependency name of every step names a step of its group.
pub open spec fn all_resolvable(names: Seq<String>, group_of: Seq<usize>, depends: Seq<Vec<String>>) -> bool {
    forall|i: int, k: int| 0 <= i < depends.len() && 0 <= k < depends[i]@.len()
        ==> #[trigger] resolvable(names, group_of, i, depends[i]@[k]@)
}

fn find_sibling(names: &Vec<String>, group_of: &Vec<usize>, i: usize, d: &String) -> (r: Option<usize>)
    requires
        names@.len() == group_of@.len(),
        i < names@.len(),
    ensures
        r matches Some(j) ==> names_sibling(names@, group_of@, i as int, j as int, d@)
            && forall|t: int| 0 <= t < j ==> !names_sibling(names@, group_of@, i as int, t, d@),
        r is None ==> forall|t: int| !names_sibling(names@, group_of@, i as int, t, d@),
{
    let mut j: usize = 0;
    while j < names.len()
        invariant
            names@.len() == group_of@.len(),
            i < names@.len(),
            j <= names@.len(),
            forall|t: int| 0 <= t < j ==> !names_sibling(names@, group_of@, i as int, t, d@),
        decreases names@.len() - j,
    {
        if names[j] == *d && group_of[j] == group_of[i] {
            return Some(j);
        }
        j += 1;
    }
    None
}

proof fn lemma_resolved(names: Seq<String>, group_of: Seq<usize>, depends: Seq<Vec<String>>, out: Seq<Vec<usize>>)
    requires
        out.len() == depends.len(),
        forall|a: int| 0 <= a < out.len() ==> (#[trigger] out[a])@.len() == depends[a]@.len(),
        forall|a: int, k: int| 0 <= a < out.len() && 0 <= k < out[a]@.len()
            ==> names_sibling(names, group_of, a, #[trigger] out[a]@[k] as int, depends[a]@[k]@),
    ensures
        all_resolvable(names, group_of, depends),
{
    assert forall|a: int, k: int| 0 <= a < depends.len() && 0 <= k < depends[a]@.len()
        implies #[trigger] resolvable(names, group_of, a, depends[a]@[k]@) by {
        assert(out[a]@.len() == depends[a]@.len());
        let j = out[a]@[k] as int;
        assert(names_sibling(names, group_of, a, j, depends[a]@[k]@));
        assert(names[j]@ == depends[a]@[k]@);
    }
}

/// Resolves each dependency name of each step to the index of the first
/// step of its group with that name. An unknown name is a configuration
/// error.
pub fn resolve_depends(names: &Vec<String>, group_of: &Vec<usize>, depends: &Vec<Vec<String>>) -> (r: Result<Vec<Vec<usize>>, Error>)
    requires
        names@.len() == group_of@.len(),
        depends@.len() == names@.len(),
    ensures
        r is Ok <==> all_resolvable(names@, group_of@, depends@),
        r matches Ok(ds) ==> {
            &&& ds@.len() == depends@.len()
            &&& forall|i: int| 0 <= i < ds@.len() ==> (#[trigger] ds@[i])@.len() == depends@[i]@.len()
            &&& forall|i: int, k: int| 0 <= i < ds@.len() && 0 <= k < ds@[i]@.len() ==> {
                let j = #[trigger] ds@[i]@[k] as int;
                &&& names_sibling(names@, group_of@, i, j, depends@[i]@[k]@)
                &&& forall|t: int| 0 <= t < j ==> !names_sibling(names@, group_of@, i, t, depends@[i]@[k]@)
            }
        },
{
    let n = names.len();
    let mut out: Vec<Vec<usize>> = Vec::new();
    let mut i: usize = 0;
    while i < n
        invariant
            n == names@.len(),
            n == group_of@.len(),
            n == depends@.len(),
            i <= n,
            out@.len() == i,
            forall|a: int| 0 <= a < i ==> (#[trigger] out@[a])@.len() == depends@[a]@.len(),
            forall|a: int, k: int| 0 <= a < i && 0 <= k < out@[a]@.len() ==> {
                let j = #[trigger] out@[a]@[k] as int;
                &&& names_sibling(names@, group_of@, a, j, depends@[a]@[k]@)
                &&& forall|t: int| 0 <= t < j ==> !names_sibling(names@, group_of@, a, t, depends@[a]@[k]@)
            },
        decreases n - i,
    {
        let ds = &depends[i];
        let mut row: Vec<usize> = Vec::new();
        let mut k: usize = 0;
        while k < ds.len()
            invariant
                n == names@.len(),
                n == group_of@.len(),
                n == depends@.len(),
                i < n,
                ds@ == depends@[i as int]@,
                k <= ds@.len(),
                row@.len() == k,
                forall|kk: int| 0 <= kk < k ==> {
                    let j = #[trigger] row@[kk] as int;
                    &&& names_sibling(names@, group_of@, i as int, j, ds@[kk]@)
                    &&& forall|t: int| 0 <= t < j ==> !names_sibling(names@, group_of@, i as int, t, ds@[kk]@)
                },
            decreases ds@.len() - k,
        {
            match find_sibling(names, group_of, i, &ds[k]) {
                Some(j) => {
                    row.push(j);
                },
                None => {
                    assert(!all_resolvable(names@, group_of@, depends@)) by {
                        let dk = depends@[i as int]@[k as int]@;
                        assert(dk == ds@[k as int]@);
                        if all_resolvable(names@, group_of@, depends@) {
                            assert(resolvable(names@, group_of@, i as int, dk));
                        }
                    }
                    return Err(Error::UnknownDependency { step: names[i].clone(), depends: ds[k].clone() });
                },
            }
            k += 1;
        }
        out.push(row);
        i += 1;
    }
    proof {
        lemma_resolved(names@, group_of@, depends@, out@);
    }
    Ok(out)
}

/// One latch per step name of a group.
#[derive(Debug)]
pub struct StepDepends {
    pub names: Vec<String>,
    pub done: Vec<bool>,
}

impl StepDepends {
    pub open spec fn wf(&self) -> bool {
        self.done@.len() == self.names@.len()
    }

    /// Whether the latch of a step named `name` is done.
    pub open spec fn spec_is_done(&self, name: Seq<char>) -> bool {
        exists|i: int| 0 <= i < self.names@.len() && self.names@[i]@ == name && self.done@[i]
    }

    pub fn new(names: &Vec<String>) -> (r: StepDepends)
        ensures
            r.wf(),
            r.names@ == names@,
            forall|i: int| 0 <= i < r.done@.len() ==> !r.done@[i],
    {
        let mut done: Vec<bool> = Vec::new();
        let mut i: usize = 0;
        while i < names.len()
            invariant
                i <= names@.len(),
                done@.len() == i,
                forall|j: int| 0 <= j < i ==> !done@[j],
            decreases names@.len() - i,
        {
            done.push(false);
            i += 1;
        }
        StepDepends { names: crate::text::copy_strings(names), done }
    }

    pub fn is_done(&self, name: &String) -> (r: bool)
        requires
            self.wf(),
        ensures
            r == self.spec_is_done(name@),
    {
        let mut i: usize = 0;
        while i < self.names.len()
            invariant
                self.wf(),
                i <= self.names@.len(),
                forall|j: int| 0 <= j < i ==> !(self.names@[j]@ == name@ && self.done@[j]),
            decreases self.names@.len() - i,
        {
            if self.names[i] == *name && self.done[i] {
                return true;
            }
            i += 1;
        }
        false
    }

    /// Marks the latches of `name` done; an unknown name is an error.
    pub fn mark_done(&mut self, name: &String) -> (r: Result<(), Error>)
        requires
            old(self).wf(),
        ensures
            final(self).wf(),
            final(self).names@ == old(self).names@,
            r is Ok <==> views(old(self).names@).contains(name@),
            forall|i: int| 0 <= i < final(self).done@.len() ==> final(self).done@[i] == (old(self).done@[i] || old(self).names@[i]@ == name@),
    {
        let mut found = false;
        let mut i: usize = 0;
        while i < self.names.len()
            invariant
                self.wf(),
                self.names@ == old(self).names@,
                i <= self.names@.len(),
                found == exists|j: int| 0 <= j < i && old(self).names@[j]@ == name@,
                forall|j: int| 0 <= j < self.done@.len() ==> self.done@[j] == (old(self).done@[j] || (j < i && old(self).names@[j]@ == name@)),
            decreases self.names@.len() - i,
        {
            if self.names[i] == *name {
                self.done.set(i, true);
                found = true;
            }
            i += 1;
        }
        assert(found == views(old(self).names@).contains(name@)) by {
            crate::text::lemma_views_index(old(self).names@);
            if found {
                let j = choose|j: int| 0 <= j < old(self).names@.len() && old(self).names@[j]@ == name@;
                assert(views(old(self).names@)[j] == name@);
            }
        }
        if found { Ok(()) } else { Err(Error::UnknownStep(name.clone())) }
    }
}

} // verus!
