//! Matching file paths against glob patterns, through globset.
use vstd::prelude::*;

use globset::{Error as GlobsetError, GlobBuilder, GlobSetBuilder};

use crate::text::{lemma_filter_step, lemma_views_full, views};

verus! {

#[verifier::external_type_specification]
#[verifier::external_body]
pub struct ExGlobError(GlobsetError);

/// Whether globset accepts every pattern of the list and builds their set.
pub uninterp spec fn globs_compile(globs: Seq<Seq<char>>) -> bool;

/// Whether the built set of the patterns matches the path.
pub uninterp spec fn globs_match(globs: Seq<Seq<char>>, path: Seq<char>) -> bool;

/// Relies on globset's GlobBuilder (with empty alternates allowed) and
/// GlobSetBuilder::build: whether they accept the patterns. A list with no
/// pattern builds the empty set.
#[verifier::external_body]
fn compile_globs(globs: &Vec<String>) -> (r: Result<(), GlobsetError>)
    ensures
        r is Ok <==> globs_compile(views(globs@)),
        globs@.len() == 0 ==> r is Ok,
{
    let mut builder = GlobSetBuilder::new();
    for g in globs.iter() {
        builder.add(GlobBuilder::new(g).empty_alternates(true).build()?);
    }
    builder.build().map(|_| ())
}

/// Relies on globset's GlobSet::is_match, on the set built as in
/// `compile_globs`. The empty set matches nothing.
#[verifier::external_body]
fn glob_set_is_match(globs: &Vec<String>, path: &String) -> (r: Result<bool, GlobsetError>)
    ensures
        r is Ok <==> globs_compile(views(globs@)),
        r is Ok ==> r->Ok_0 == globs_match(views(globs@), path@),
        globs@.len() == 0 ==> r is Ok && !r->Ok_0,
{
    let mut builder = GlobSetBuilder::new();
    for g in globs.iter() {
        builder.add(GlobBuilder::new(g).empty_alternates(true).build()?);
    }
    Ok(builder.build()?.is_match(std::path::Path::new(path.as_str())))
}

/// Relies on the Display of globset::Error for its message.
#[verifier::external_body]
fn glob_error_message(e: &GlobsetError) -> String {
    e.to_string()
}

/// The files, in order, that the patterns match.
pub open spec fn spec_matches(globs: Seq<Seq<char>>, files: Seq<Seq<char>>) -> Seq<Seq<char>> {
    files.filter(|f: Seq<char>| globs_match(globs, f))
}

/// The files, in their order, that any of the patterns matches; an error
/// where a pattern is not a valid glob.
pub fn get_matches(globs: &Vec<String>, files: &Vec<String>) -> (r: Result<Vec<String>, crate::error::Error>)
    ensures
        r is Ok <==> globs_compile(views(globs@)),
        r matches Ok(m) ==> views(m@) == spec_matches(views(globs@), views(files@)),
{
    match compile_globs(globs) {
        Ok(()) => {},
        Err(e) => {
            return Err(crate::error::Error::InvalidGlob(glob_error_message(&e)));
        },
    }
    let ghost p = |f: Seq<char>| globs_match(views(globs@), f);
    let mut out: Vec<String> = Vec::new();
    let mut i: usize = 0;
    while i < files.len()
        invariant
            globs_compile(views(globs@)),
            p == (|f: Seq<char>| globs_match(views(globs@), f)),
            i <= files@.len(),
            views(out@) == views(files@.subrange(0, i as int)).filter(p),
        decreases files@.len() - i,
    {
        let hit = match glob_set_is_match(globs, &files[i]) {
            Ok(b) => b,
            Err(e) => {
                return Err(crate::error::Error::InvalidGlob(glob_error_message(&e)));
            },
        };
        proof {
            lemma_filter_step(files@, i as int, p);
        }
        if hit {
            let f = files[i].clone();
            let ghost before = out@;
            out.push(f);
            assert(views(out@) =~= views(before).push(f@));
        }
        i += 1;
    }
    proof {
        lemma_views_full(files@);
    }
    Ok(out)
}

/// The files, in order, that none of the patterns matches.
pub open spec fn spec_non_matches(globs: Seq<Seq<char>>, files: Seq<Seq<char>>) -> Seq<Seq<char>> {
    files.filter(|f: Seq<char>| !globs_match(globs, f))
}

/// The files, in their order, that no pattern matches; an error where a
/// pattern is not a valid glob.
pub fn get_non_matches(globs: &Vec<String>, files: &Vec<String>) -> (r: Result<Vec<String>, crate::error::Error>)
    ensures
        r is Ok <==> globs_compile(views(globs@)),
        r matches Ok(m) ==> views(m@) == spec_non_matches(views(globs@), views(files@)),
{
    match compile_globs(globs) {
        Ok(()) => {},
        Err(e) => {
            return Err(crate::error::Error::InvalidGlob(glob_error_message(&e)));
        },
    }
    let ghost p = |f: Seq<char>| !globs_match(views(globs@), f);
    let mut out: Vec<String> = Vec::new();
    let mut i: usize = 0;
    while i < files.len()
        invariant
            globs_compile(views(globs@)),
            p == (|f: Seq<char>| !globs_match(views(globs@), f)),
            i <= files@.len(),
            views(out@) == views(files@.subrange(0, i as int)).filter(p),
        decreases files@.len() - i,
    {
        let hit = match glob_set_is_match(globs, &files[i]) {
            Ok(b) => b,
            Err(e) => {
                return Err(crate::error::Error::InvalidGlob(glob_error_message(&e)));
            },
        };
        proof {
            lemma_filter_step(files@, i as int, p);
        }
        if !hit {
            let f = files[i].clone();
            let ghost before = out@;
            out.push(f);
            assert(views(out@) =~= views(before).push(f@));
        }
        i += 1;
    }
    proof {
        lemma_views_full(files@);
    }
    Ok(out)
}

/// Whether the patterns match the path; an error where a pattern is not a
/// valid glob.
pub fn is_match(globs: &Vec<String>, path: &String) -> (r: Result<bool, crate::error::Error>)
    ensures
        r is Ok <==> globs_compile(views(globs@)),
        r matches Ok(b) ==> b == globs_match(views(globs@), path@),
        globs@.len() == 0 ==> (r matches Ok(b) && !b),
{
    match glob_set_is_match(globs, path) {
        Ok(b) => Ok(b),
        Err(e) => Err(crate::error::Error::InvalidGlob(glob_error_message(&e))),
    }
}

} // verus!
