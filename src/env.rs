//! Reading the values of the environment variables that steer a run. The
//! caller reads the variable; these functions decide what its value means.
use vstd::prelude::*;

use crate::text::{contains_str, dedup, spec_split, split_on, views};

verus! {

broadcast use vstd::string::to_string_from_display_ensures_for_str;

/// The lower-case form of a string, as `str::to_lowercase` gives it.
pub uninterp spec fn lower_of(s: Seq<char>) -> Seq<char>;

/// A string without leading and trailing whitespace, as `str::trim` gives
/// it.
pub uninterp spec fn trimmed(s: Seq<char>) -> Seq<char>;

/// Relies on str::to_lowercase: the result depends on the characters alone.
#[verifier::external_body]
fn lowercase(s: &str) -> (r: String)
    ensures
        r@ == lower_of(s@),
{
    s.to_lowercase()
}

/// Relies on str::trim: the result depends on the characters alone.
#[verifier::external_body]
fn trim(s: &str) -> (r: String)
    ensures
        r@ == trimmed(s@),
{
    s.trim().to_string()
}

/// A set variable whose value is `true` or `1`, in any case.
pub fn var_true(value: Option<&str>) -> (r: bool)
    ensures
        r == (value matches Some(v) && (lower_of(v@) == "true"@ || lower_of(v@) == "1"@)),
{
    match value {
        None => false,
        Some(v) => {
            let l = lowercase(v);
            let t = "true".to_string();
            let one = "1".to_string();
            proof {
                reveal_strlit("true");
                reveal_strlit("1");
            }
            l == t || l == one
        },
    }
}

/// A set variable whose value is `false` or `0`, in any case.
pub fn var_false(value: Option<&str>) -> (r: bool)
    ensures
        r == (value matches Some(v) && (lower_of(v@) == "false"@ || lower_of(v@) == "0"@)),
{
    match value {
        None => false,
        Some(v) => {
            let l = lowercase(v);
            let f = "false".to_string();
            let zero = "0".to_string();
            proof {
                reveal_strlit("false");
                reveal_strlit("0");
            }
            l == f || l == zero
        },
    }
}

/// The comma-separated entries of a set variable, each trimmed, each once.
pub fn var_csv(value: Option<&str>) -> (r: Option<Vec<String>>)
    ensures
        r is Some <==> value is Some,
        r matches Some(v) ==> views(v@) == dedup(spec_split(value->0@, ',').map_values(|e: Seq<char>| trimmed(e))),
{
    match value {
        None => None,
        Some(v) => {
            let parts = split_on(v, ',');
            let ghost t = views(parts@).map_values(|e: Seq<char>| trimmed(e));
            let mut out: Vec<String> = Vec::new();
            let mut i: usize = 0;
            while i < parts.len()
                invariant
                    t == views(parts@).map_values(|e: Seq<char>| trimmed(e)),
                    i <= parts@.len(),
                    views(out@) == dedup(t.subrange(0, i as int)),
                decreases parts@.len() - i,
            {
                let e = trim(parts[i].as_str());
                assert(t.subrange(0, i as int + 1).drop_last() =~= t.subrange(0, i as int));
                assert(t.subrange(0, i as int + 1).last() == e@);
                if !contains_str(&out, &e) {
                    let ghost before = out@;
                    out.push(e);
                    assert(views(out@) =~= views(before).push(e@));
                }
                i += 1;
            }
            assert(t.subrange(0, t.len() as int) =~= t);
            Some(out)
        },
    }
}

} // verus!
