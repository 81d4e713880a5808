//! Shell-style glob matching, provided by the `glob` crate behind trusted
//! wrappers, and matching over whole pattern sets.

use vstd::prelude::*;

verus! {

/// Whether `glob::Pattern::new` accepts this pattern text.
pub uninterp spec fn glob_ok(pattern: Seq<char>) -> bool;

/// What `glob::Pattern::matches` returns for this pattern and candidate text.
pub uninterp spec fn glob_matches(pattern: Seq<char>, text: Seq<char>) -> bool;

/// Relies on `glob::Pattern::new` and `glob::Pattern::matches`: compilation
/// succeeds or fails on the pattern text alone, and matching a compiled
/// pattern is a function of the pattern text and the candidate alone.
#[verifier::external_body]
fn glob_match(pattern: &str, text: &str) -> (r: Option<bool>)
    ensures
        glob_ok(pattern@) ==> r == Some(glob_matches(pattern@, text@)),
        !glob_ok(pattern@) ==> r is None,
{
    match glob::Pattern::new(pattern) {
        Ok(p) => Some(p.matches(text)),
        Err(_) => None,
    }
}

/// Relies on `glob::Pattern::new`: compilation succeeds or fails on the
/// pattern text alone.
#[verifier::external_body]
fn glob_compiles(pattern: &str) -> (r: bool)
    ensures
        r == glob_ok(pattern@),
{
    glob::Pattern::new(pattern).is_ok()
}

/// Every pattern of the set compiles.
pub open spec fn all_patterns_ok(pats: Seq<String>) -> bool {
    forall|k: int| 0 <= k < pats.len() ==> glob_ok(#[trigger] pats[k]@)
}

/// Some pattern of the set matches the text.
pub open spec fn matches_any(pats: Seq<String>, text: Seq<char>) -> bool {
    exists|k: int| 0 <= k < pats.len() && glob_matches(#[trigger] pats[k]@, text)
}

/// Checks that every pattern of a set compiles.
pub fn patterns_compile(pats: &Vec<String>) -> (r: bool)
    ensures
        r == all_patterns_ok(pats@),
{
    let mut i: usize = 0;
    while i < pats.len()
        invariant
            i <= pats.len(),
            forall|k: int| 0 <= k < i ==> glob_ok(#[trigger] pats@[k]@),
        decreases pats.len() - i,
    {
        if !glob_compiles(pats[i].as_str()) {
            return false;
        }
        i += 1;
    }
    true
}

/// Whether any pattern of the set matches the text.
pub fn any_pattern_matches(pats: &Vec<String>, text: &str) -> (r: bool)
    requires
        all_patterns_ok(pats@),
    ensures
        r == matches_any(pats@, text@),
{
    let mut i: usize = 0;
    while i < pats.len()
        invariant
            i <= pats.len(),
            all_patterns_ok(pats@),
            forall|k: int| 0 <= k < i ==> !glob_matches(#[trigger] pats@[k]@, text@),
        decreases pats.len() - i,
    {
        match glob_match(pats[i].as_str(), text) {
            Some(true) => {
                return true;
            },
            Some(false) => {},
            None => {
                // unreachable: the set was checked to compile
                proof {
                    assert(glob_ok(pats@[i as int]@));
                }
            },
        }
        i += 1;
    }
    false
}

} // verus!
