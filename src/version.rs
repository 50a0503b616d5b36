//! The library's version, and the check of a configuration's minimum.
use vstd::prelude::*;

use std::cmp::Ordering;

use crate::error::Error;

verus! {

pub const VERSION: &'static str = "1.0.0";

/// How semver orders two version strings; `None` where either does not
/// parse.
pub uninterp spec fn semver_order(a: Seq<char>, b: Seq<char>) -> Option<Ordering>;

/// Relies on semver::Version::parse of both strings and the order of
/// semver::Version; the outcome depends on the strings alone.
#[verifier::external_body]
fn semver_compare(a: &str, b: &str) -> (r: Option<Ordering>)
    ensures
        r == semver_order(a@, b@),
{
    match (semver::Version::parse(a), semver::Version::parse(b)) {
        (Ok(x), Ok(y)) => Some(x.cmp(&y)),
        _ => None,
    }
}

pub fn version() -> (r: &'static str)
    ensures
        r@ == VERSION@,
{
    VERSION
}

/// How `v` compares with this version; an error where it is not a
/// version.
pub fn version_cmp(v: &str) -> (r: Result<Ordering, Error>)
    ensures
        r is Ok <==> semver_order(v@, VERSION@) is Some,
        r matches Ok(o) ==> semver_order(v@, VERSION@) == Some(o),
{
    match semver_compare(v, version()) {
        Some(o) => Ok(o),
        None => Err(Error::InvalidVersion(v.to_string())),
    }
}

/// Fails where the configuration asks for a version newer than this one;
/// a minimum that does not parse is let through.
pub fn version_cmp_or_bail(v: &str) -> (r: Result<(), Error>)
    ensures
        r is Err <==> semver_order(v@, VERSION@) == Some(Ordering::Greater),
{
    match version_cmp(v) {
        Ok(Ordering::Greater) => Err(Error::VersionTooOld { required: v.to_string() }),
        _ => Ok(()),
    }
}

} // verus!
