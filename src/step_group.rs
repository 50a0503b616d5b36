//! Partitioning a hook's steps into groups, and the files that steps of one
//! group compete for.
use vstd::prelude::*;

use crate::error::Error;
use crate::glob::{globs_compile, globs_match, is_match};
use crate::run_type::RunType;
use crate::step::Step;
use crate::text::views;

verus! {

/// The group of step `i`: an exclusive step starts a new group and the step
/// after it starts another, so it runs alone; other steps join the group of
/// the step before them.
pub open spec fn spec_group_of(exclusive: Seq<bool>, i: int) -> int
    decreases i,
{
    if i <= 0 {
        0
    } else {
        spec_group_of(exclusive, i - 1) + if exclusive[i] || exclusive[i - 1] { 1int } else { 0int }
    }
}

/// The number of groups of `n` steps.
pub open spec fn spec_num_groups(exclusive: Seq<bool>) -> int {
    if exclusive.len() == 0 { 0 } else { spec_group_of(exclusive, exclusive.len() - 1) + 1 }
}

proof fn lemma_group_of_bounds(exclusive: Seq<bool>, i: int)
    requires
        0 <= i < exclusive.len(),
    ensures
        0 <= spec_group_of(exclusive, i) <= i,
    decreases i,
{
    if i > 0 {
        lemma_group_of_bounds(exclusive, i - 1);
    }
}

/// The group index of each step, from the steps' `exclusive` flags, and the
/// number of groups. No group is empty.
pub fn build_groups(exclusive: &Vec<bool>) -> (r: (Vec<usize>, usize))
    ensures
        r.0@.len() == exclusive@.len(),
        forall|i: int| 0 <= i < r.0@.len() ==> r.0@[i] as int == spec_group_of(exclusive@, i),
        r.1 as int == spec_num_groups(exclusive@),
{
    let n = exclusive.len();
    let mut out: Vec<usize> = Vec::new();
    let mut g: usize = 0;
    let mut i: usize = 0;
    while i < n
        invariant
            n == exclusive@.len(),
            i <= n,
            out@.len() == i,
            forall|j: int| 0 <= j < i ==> out@[j] as int == spec_group_of(exclusive@, j),
            i > 0 ==> g as int == spec_group_of(exclusive@, i - 1),
            i == 0 ==> g == 0,
            i > 0 ==> g < i,
        decreases n - i,
    {
        proof {
            lemma_group_of_bounds(exclusive@, i as int);
            if i > 0 {
                lemma_group_of_bounds(exclusive@, i as int - 1);
            }
        }
        if i > 0 && (exclusive[i] || exclusive[i - 1]) {
            g = g + 1;
        }
        out.push(g);
        i += 1;
    }
    let count = if n == 0 { 0 } else { g + 1 };
    proof {
        if n > 0 {
            lemma_group_of_bounds(exclusive@, n - 1);
        }
    }
    (out, count)
}

/// The patterns a step's files are matched with for contention; a step
/// without globs matches no file.
pub open spec fn step_globs(step: Step) -> Seq<Seq<char>> {
    match step.glob {
        Some(g) => views(g@),
        None => Seq::empty(),
    }
}

pub open spec fn member_matches(steps: Seq<Step>, group_of: Seq<usize>, g: usize, s: int, f: Seq<char>) -> bool {
    0 <= s < steps.len() && group_of[s] == g && globs_match(step_globs(steps[s]), f)
}

/// A file is in contention in group `g` when two steps of the group match
/// it and one of the steps that match it has a fix.
pub open spec fn contended(steps: Seq<Step>, group_of: Seq<usize>, g: usize, f: Seq<char>) -> bool {
    &&& exists|a: int, b: int| a != b && member_matches(steps, group_of, g, a, f) && member_matches(steps, group_of, g, b, f)
    &&& exists|a: int| member_matches(steps, group_of, g, a, f) && (#[trigger] steps[a]).fix is Some
}

/// Whether contention is worked out at all: in a fix run where a step of
/// the group asks for check-first.
pub open spec fn contention_needed(steps: Seq<Step>, group_of: Seq<usize>, g: usize, run_type: RunType) -> bool {
    run_type == RunType::Fix && exists|s: int| 0 <= s < steps.len() && group_of[s] == g && (#[trigger] steps[s]).check_first
}

/// Every step's globs of group `g` compile.
pub open spec fn group_globs_compile(steps: Seq<Step>, group_of: Seq<usize>, g: usize) -> bool {
    forall|s: int| 0 <= s < steps.len() && group_of[s] == g ==> globs_compile(step_globs(#[trigger] steps[s]))
}

fn any_check_first(steps: &Vec<Step>, group_of: &Vec<usize>, g: usize) -> (r: bool)
    requires
        steps@.len() == group_of@.len(),
    ensures
        r == exists|s: int| 0 <= s < steps@.len() && group_of@[s] == g && (#[trigger] steps@[s]).check_first,
{
    let mut i: usize = 0;
    while i < steps.len()
        invariant
            steps@.len() == group_of@.len(),
            i <= steps@.len(),
            forall|s: int| 0 <= s < i && group_of@[s] == g ==> !(#[trigger] steps@[s]).check_first,
        decreases steps@.len() - i,
    {
        if group_of[i] == g && steps[i].check_first {
            return true;
        }
        i += 1;
    }
    false
}

fn globs_of(step: &Step) -> (r: Vec<String>)
    ensures
        views(r@) == step_globs(*step),
{
    match &step.glob {
        Some(g) => crate::text::copy_strings(g),
        None => Vec::new(),
    }
}

/// The files of `files`, in order, that steps of group `g` contend for.
/// Empty unless the run is a fix and a step of the group asks for
/// check-first; an error where a glob of the group's steps is invalid.
pub fn files_in_contention(steps: &Vec<Step>, group_of: &Vec<usize>, g: usize, files: &Vec<String>, run_type: RunType) -> (r: Result<Vec<String>, Error>)
    requires
        steps@.len() == group_of@.len(),
    ensures
        !contention_needed(steps@, group_of@, g, run_type) ==> (r matches Ok(v) && v@.len() == 0),
        contention_needed(steps@, group_of@, g, run_type) ==> {
            &&& (r is Ok <==> (files@.len() == 0 || group_globs_compile(steps@, group_of@, g)))
            &&& r matches Ok(v) ==> views(v@) == views(files@).filter(|f: Seq<char>| contended(steps@, group_of@, g, f))
        },
{
    if !run_type.is_fix() || !any_check_first(steps, group_of, g) {
        return Ok(Vec::new());
    }
    let ghost p = |f: Seq<char>| contended(steps@, group_of@, g, f);
    let mut out: Vec<String> = Vec::new();
    let mut i: usize = 0;
    while i < files.len()
        invariant
            steps@.len() == group_of@.len(),
            p == (|f: Seq<char>| contended(steps@, group_of@, g, f)),
            contention_needed(steps@, group_of@, g, run_type),
            i <= files@.len(),
            i > 0 ==> group_globs_compile(steps@, group_of@, g),
            views(out@) == views(files@.subrange(0, i as int)).filter(p),
        decreases files@.len() - i,
    {
        let f = &files[i];
        // the first matching step, whether a second one matches, whether a fixer matches
        let mut first: Option<usize> = None;
        let mut second = false;
        let mut fixer = false;
        let mut s: usize = 0;
        while s < steps.len()
            invariant
                steps@.len() == group_of@.len(),
                s <= steps@.len(),
                i < files@.len(),
                contention_needed(steps@, group_of@, g, run_type),
                i > 0 ==> group_globs_compile(steps@, group_of@, g),
                forall|t: int| 0 <= t < s && group_of@[t] == g ==> globs_compile(step_globs(#[trigger] steps@[t])),
                first is None ==> forall|t: int| 0 <= t < s ==> !member_matches(steps@, group_of@, g, t, f@),
                first matches Some(a) ==> a < s && member_matches(steps@, group_of@, g, a as int, f@),
                second ==> exists|b: int| 0 <= b < s && b != first->0 && member_matches(steps@, group_of@, g, b, f@),
                !second ==> forall|t: int| 0 <= t < s && member_matches(steps@, group_of@, g, t, f@) ==> Some(t as usize) == first,
                fixer == exists|t: int| 0 <= t < s && member_matches(steps@, group_of@, g, t, f@) && (#[trigger] steps@[t]).fix is Some,
            decreases steps@.len() - s,
        {
            if group_of[s] == g {
                let hit = match is_match(&globs_of(&steps[s]), f) {
                    Ok(b) => b,
                    Err(e) => {
                        assert(!group_globs_compile(steps@, group_of@, g)) by {
                            assert(!globs_compile(step_globs(steps@[s as int])));
                        }
                        return Err(e);
                    },
                };
                if hit {
                    if first.is_none() {
                        first = Some(s);
                    } else {
                        second = true;
                        assert(member_matches(steps@, group_of@, g, s as int, f@));
                    }
                    if steps[s].fix.is_some() {
                        fixer = true;
                    }
                }
            }
            s += 1;
        }
        proof {
            crate::text::lemma_filter_step(files@, i as int, p);
            assert(group_globs_compile(steps@, group_of@, g));
            if second && fixer {
                let b = choose|b: int| 0 <= b < steps@.len() && b != first->0 && member_matches(steps@, group_of@, g, b, f@);
                assert(member_matches(steps@, group_of@, g, first->0 as int, f@));
            }
            if !second {
                assert forall|a: int, b: int| a != b && member_matches(steps@, group_of@, g, a, f@)
                    implies !member_matches(steps@, group_of@, g, b, f@) by {
                    if member_matches(steps@, group_of@, g, b, f@) {
                        assert(Some(a as usize) == first);
                        assert(Some(b as usize) == first);
                    }
                }
            }
            assert(p(f@) == (second && fixer));
        }
        if second && fixer {
            let c = f.clone();
            let ghost before = out@;
            out.push(c);
            assert(views(out@) =~= views(before).push(c@));
        }
        i += 1;
    }
    proof {
        crate::text::lemma_views_full(files@);
    }
    Ok(out)
}

} // verus!
