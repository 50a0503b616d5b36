//! Settings read once at startup and threaded through a run: parallelism,
//! active and disabled profiles, fail-fast.
use vstd::prelude::*;

use crate::step::{spec_disabling, spec_enabling};
use crate::text::{contains_str, dedup, is_negated, is_negated_exec, negated_name, negated_name_exec, views};

verus! {

#[derive(Debug)]
pub struct Settings {
    pub jobs: usize,
    pub enabled_profiles: Vec<String>,
    pub disabled_profiles: Vec<String>,
    pub fail_fast: bool,
}

/// `s` with `x` added at the end unless it is there.
pub open spec fn set_insert(s: Seq<Seq<char>>, x: Seq<char>) -> Seq<Seq<char>> {
    if s.contains(x) { s } else { s.push(x) }
}

/// `s` without `x`.
pub open spec fn set_remove(s: Seq<Seq<char>>, x: Seq<char>) -> Seq<Seq<char>> {
    s.filter(|y: Seq<char>| y != x)
}

/// The profiles after a list of profile arguments, one after the other: a
/// `!name` disables the name; any other enables it and lifts its disabling.
pub open spec fn apply_profiles(en: Seq<Seq<char>>, dis: Seq<Seq<char>>, ps: Seq<Seq<char>>) -> (Seq<Seq<char>>, Seq<Seq<char>>)
    decreases ps.len(),
{
    if ps.len() == 0 {
        (en, dis)
    } else {
        let (e, d) = apply_profiles(en, dis, ps.drop_last());
        let p = ps.last();
        if is_negated(p) {
            (e, set_insert(d, negated_name(p)))
        } else {
            (set_insert(e, p), set_remove(d, p))
        }
    }
}

fn insert_exec(v: &mut Vec<String>, x: String)
    ensures
        views(final(v)@) == set_insert(views(old(v)@), x@),
{
    if !contains_str(v, &x) {
        let ghost before = v@;
        v.push(x);
        assert(views(v@) =~= views(before).push(x@));
    }
}

fn remove_exec(v: &Vec<String>, x: &String) -> (r: Vec<String>)
    ensures
        views(r@) == set_remove(views(v@), x@),
{
    let ghost p = |y: Seq<char>| y != x@;
    let mut out: Vec<String> = Vec::new();
    let mut i: usize = 0;
    while i < v.len()
        invariant
            p == (|y: Seq<char>| y != x@),
            i <= v@.len(),
            views(out@) == views(v@.subrange(0, i as int)).filter(p),
        decreases v@.len() - i,
    {
        proof {
            crate::text::lemma_filter_step(v@, i as int, p);
        }
        if v[i] != *x {
            let y = v[i].clone();
            let ghost before = out@;
            out.push(y);
            assert(views(out@) =~= views(before).push(y@));
        }
        i += 1;
    }
    proof {
        crate::text::lemma_views_full(v@);
    }
    out
}

impl Settings {
    /// Settings from a profile list (as `HK_PROFILE` gives it): `!name`
    /// entries are disabled, the others enabled unless also disabled.
    pub fn from_profiles(profiles: &Vec<String>, jobs: usize, fail_fast: bool) -> (r: Settings)
        requires
            jobs > 0,
        ensures
            r.jobs == jobs,
            r.fail_fast == fail_fast,
            views(r.disabled_profiles@) == dedup(spec_disabling(views(profiles@))),
            views(r.enabled_profiles@) == dedup(spec_enabling(views(profiles@)).filter(
                |p: Seq<char>| !dedup(spec_disabling(views(profiles@))).contains(p),
            )),
    {
        let mut dis: Vec<String> = Vec::new();
        let mut i: usize = 0;
        while i < profiles.len()
            invariant
                i <= profiles@.len(),
                views(dis@) == dedup(spec_disabling(views(profiles@.subrange(0, i as int)))),
            decreases profiles@.len() - i,
        {
            let ghost pre = views(profiles@.subrange(0, i as int + 1));
            let ghost prev = views(profiles@.subrange(0, i as int));
            assert(pre =~= prev.push(profiles@[i as int]@));
            proof {
                lemma_disabling_push(prev, profiles@[i as int]@);
            }
            if is_negated_exec(profiles[i].as_str()) {
                let name = negated_name_exec(profiles[i].as_str());
                insert_exec(&mut dis, name);
            }
            i += 1;
        }
        assert(profiles@.subrange(0, profiles@.len() as int) =~= profiles@);
        let ghost d = views(dis@);
        let ghost q = |p: Seq<char>| !is_negated(p) && !d.contains(p);
        let mut en: Vec<String> = Vec::new();
        let mut k: usize = 0;
        while k < profiles.len()
            invariant
                d == views(dis@),
                q == (|p: Seq<char>| !is_negated(p) && !d.contains(p)),
                k <= profiles@.len(),
                views(en@) == dedup(views(profiles@.subrange(0, k as int)).filter(q)),
            decreases profiles@.len() - k,
        {
            proof {
                crate::text::lemma_filter_step(profiles@, k as int, q);
            }
            let ghost f = views(profiles@.subrange(0, k as int)).filter(q);
            if !is_negated_exec(profiles[k].as_str()) && !contains_str(&dis, &profiles[k]) {
                assert(f.push(profiles@[k as int]@).drop_last() =~= f);
                insert_exec(&mut en, profiles[k].clone());
            }
            k += 1;
        }
        proof {
            crate::text::lemma_views_full(profiles@);
            lemma_filter_compose(views(profiles@), d);
        }
        Settings { jobs, enabled_profiles: en, disabled_profiles: dis, fail_fast }
    }

    /// Applies profile arguments in order.
    pub fn with_profiles(&mut self, profiles: &Vec<String>)
        ensures
            (views(final(self).enabled_profiles@), views(final(self).disabled_profiles@))
                == apply_profiles(views(old(self).enabled_profiles@), views(old(self).disabled_profiles@), views(profiles@)),
            final(self).jobs == old(self).jobs,
            final(self).fail_fast == old(self).fail_fast,
    {
        let ghost en0 = views(self.enabled_profiles@);
        let ghost dis0 = views(self.disabled_profiles@);
        let mut i: usize = 0;
        while i < profiles.len()
            invariant
                i <= profiles@.len(),
                self.jobs == old(self).jobs,
                self.fail_fast == old(self).fail_fast,
                (views(self.enabled_profiles@), views(self.disabled_profiles@))
                    == apply_profiles(en0, dis0, views(profiles@.subrange(0, i as int))),
            decreases profiles@.len() - i,
        {
            let ghost pre = views(profiles@.subrange(0, i as int + 1));
            assert(pre.drop_last() =~= views(profiles@.subrange(0, i as int)));
            assert(pre.last() == profiles@[i as int]@);
            if is_negated_exec(profiles[i].as_str()) {
                let name = negated_name_exec(profiles[i].as_str());
                insert_exec(&mut self.disabled_profiles, name);
            } else {
                insert_exec(&mut self.enabled_profiles, profiles[i].clone());
                self.disabled_profiles = remove_exec(&self.disabled_profiles, &profiles[i]);
            }
            i += 1;
        }
        assert(profiles@.subrange(0, profiles@.len() as int) =~= profiles@);
    }

    pub fn set_jobs(&mut self, jobs: usize)
        requires
            jobs > 0,
        ensures
            final(self).jobs == jobs,
            final(self).fail_fast == old(self).fail_fast,
            final(self).enabled_profiles@ == old(self).enabled_profiles@,
            final(self).disabled_profiles@ == old(self).disabled_profiles@,
    {
        self.jobs = jobs;
    }
}

proof fn lemma_disabling_push(ps: Seq<Seq<char>>, x: Seq<char>)
    ensures
        dedup(spec_disabling(ps.push(x))) == if is_negated(x) {
            set_insert(dedup(spec_disabling(ps)), negated_name(x))
        } else {
            dedup(spec_disabling(ps))
        },
{
    let p = |q: Seq<char>| is_negated(q);
    let f = ps.push(x).filter(p);
    assert(ps.push(x).drop_last() =~= ps);
    reveal(Seq::filter);
    assert(f == if p(x) { ps.filter(p).push(x) } else { ps.filter(p) });
    if is_negated(x) {
        let m = f.map_values(|q: Seq<char>| negated_name(q));
        assert(m =~= ps.filter(p).map_values(|q: Seq<char>| negated_name(q)).push(negated_name(x)));
        assert(m.drop_last() =~= spec_disabling(ps));
    } else {
        assert(spec_disabling(ps.push(x)) =~= spec_disabling(ps));
    }
}

/// Filtering the enabling entries and then the disabled names is filtering
/// once by both.
proof fn lemma_filter_compose(ps: Seq<Seq<char>>, d: Seq<Seq<char>>)
    ensures
        spec_enabling(ps).filter(|p: Seq<char>| !d.contains(p)) == ps.filter(|p: Seq<char>| !is_negated(p) && !d.contains(p)),
    decreases ps.len(),
{
    reveal(Seq::filter);
    if ps.len() > 0 {
        lemma_filter_compose(ps.drop_last(), d);
        assert(spec_enabling(ps) == if !is_negated(ps.last()) { spec_enabling(ps.drop_last()).push(ps.last()) } else { spec_enabling(ps.drop_last()) });
        if !is_negated(ps.last()) {
            assert(spec_enabling(ps).drop_last() =~= spec_enabling(ps.drop_last()));
        }
    }
}

} // verus!
