//! The order in which the jobs of a group's steps are queued: round robin
//! over the steps, so that no single step runs alone while others wait.
use vstd::prelude::*;

verus! {

/// Round `r` over the first `upto` steps: each step that has more than `r`
/// jobs gives its job `count - 1 - r` (jobs are taken from the back).
pub open spec fn round(counts: Seq<usize>, r: nat, upto: int) -> Seq<(usize, usize)>
    decreases upto,
{
    if upto <= 0 {
        Seq::empty()
    } else {
        let rest = round(counts, r, upto - 1);
        let c = counts[upto - 1];
        if c > r {
            rest.push(((upto - 1) as usize, (c - 1 - r) as usize))
        } else {
            rest
        }
    }
}

/// The first `r` rounds, one after another.
pub open spec fn rounds(counts: Seq<usize>, r: nat) -> Seq<(usize, usize)>
    decreases r,
{
    if r == 0 {
        Seq::empty()
    } else {
        rounds(counts, (r - 1) as nat) + round(counts, (r - 1) as nat, counts.len() as int)
    }
}

/// The largest of the counts (0 for none).
pub open spec fn max_count(counts: Seq<usize>) -> nat
    decreases counts.len(),
{
    if counts.len() == 0 {
        0
    } else {
        let m = max_count(counts.drop_last());
        if counts.last() > m { counts.last() as nat } else { m }
    }
}

/// The queue of a group whose step `s` has `counts[s]` jobs, as pairs of a
/// step and one of its jobs: round after round until every job is queued.
pub fn round_robin(counts: &Vec<usize>) -> (r: Vec<(usize, usize)>)
    ensures
        r@ == rounds(counts@, max_count(counts@)),
{
    let n = counts.len();
    let mut m: usize = 0;
    let mut i: usize = 0;
    while i < n
        invariant
            n == counts@.len(),
            i <= n,
            m as nat == max_count(counts@.subrange(0, i as int)),
        decreases n - i,
    {
        assert(counts@.subrange(0, i as int + 1).drop_last() =~= counts@.subrange(0, i as int));
        if counts[i] > m {
            m = counts[i];
        }
        i += 1;
    }
    assert(counts@.subrange(0, n as int) =~= counts@);
    let mut out: Vec<(usize, usize)> = Vec::new();
    let mut r: usize = 0;
    while r < m
        invariant
            n == counts@.len(),
            r <= m,
            out@ == rounds(counts@, r as nat),
        decreases m - r,
    {
        let ghost start = out@;
        let mut s: usize = 0;
        while s < n
            invariant
                n == counts@.len(),
                s <= n,
                r < m,
                out@ == start + round(counts@, r as nat, s as int),
            decreases n - s,
        {
            let c = counts[s];
            if c > r {
                out.push((s, c - 1 - r));
                assert(out@ =~= start + round(counts@, r as nat, s as int + 1));
            } else {
                assert(round(counts@, r as nat, s as int + 1) == round(counts@, r as nat, s as int));
            }
            s += 1;
        }
        assert(rounds(counts@, (r + 1) as nat) == rounds(counts@, r as nat) + round(counts@, r as nat, n as int));
        r += 1;
    }
    out
}

} // verus!
