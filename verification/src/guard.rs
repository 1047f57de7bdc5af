//! Route guards: pure predicates over request headers.
//!
//! A guard never touches anything but the request's metadata; nesting
//! scopes combines their guards by logical AND, and evaluation
//! short-circuits on the first failing guard.

use vstd::prelude::*;
use crate::http::{lookup_val, HeaderMap};

verus! {

/// A header-based predicate on a request.
pub enum Guard {
    /// Passes when the first value of the named header equals the given
    /// value exactly (the name case-insensitively, the value byte for
    /// byte).
    HeaderIs(String, String),
    /// Passes when the named header is present at all.
    HeaderPresent(String),
}

/// The abstract value of a guard.
pub enum GuardV {
    HeaderIs(Seq<char>, Seq<char>),
    HeaderPresent(Seq<char>),
}

impl View for Guard {
    type V = GuardV;

    open spec fn view(&self) -> GuardV {
        match self {
            Guard::HeaderIs(n, v) => GuardV::HeaderIs(n@, v@),
            Guard::HeaderPresent(n) => GuardV::HeaderPresent(n@),
        }
    }
}

impl DeepView for Guard {
    type V = GuardV;

    open spec fn deep_view(&self) -> GuardV {
        self@
    }
}

impl Clone for Guard {
    fn clone(&self) -> (r: Self)
        ensures
            r@ == self@,
    {
        match self {
            Guard::HeaderIs(n, v) => Guard::HeaderIs(n.clone(), v.clone()),
            Guard::HeaderPresent(n) => Guard::HeaderPresent(n.clone()),
        }
    }
}

/// Whether a single guard admits a request with these headers.
pub open spec fn guard_passes(g: GuardV, headers: Seq<(Seq<char>, Seq<char>)>) -> bool {
    match g {
        GuardV::HeaderIs(n, v) => lookup_val(headers, n) == Some(v),
        GuardV::HeaderPresent(n) => lookup_val(headers, n) is Some,
    }
}

/// Whether every guard in the list admits the request: the conjunction
/// of all nested scopes' guards.
pub open spec fn all_guards_pass(gs: Seq<GuardV>, headers: Seq<(Seq<char>, Seq<char>)>) -> bool {
    forall|i: int| 0 <= i < gs.len() ==> guard_passes(#[trigger] gs[i], headers)
}

/// Evaluates one guard against the request headers.
pub fn evaluate_guard(g: &Guard, headers: &HeaderMap) -> (r: bool)
    ensures
        r == guard_passes(g@, headers@),
{
    match g {
        Guard::HeaderIs(n, v) => {
            match headers.get(n.as_str()) {
                Some(actual) => actual == *v,
                None => false,
            }
        },
        Guard::HeaderPresent(n) => headers.get(n.as_str()).is_some(),
    }
}

/// Evaluates a guard list left to right, stopping at the first failure.
pub fn guards_pass(gs: &Vec<Guard>, headers: &HeaderMap) -> (r: bool)
    ensures
        r == all_guards_pass(gs.deep_view(), headers@),
{
    let n = gs.len();
    for i in 0..n
        invariant
            n == gs.len(),
            gs.deep_view().len() == n,
            forall|j: int| 0 <= j < i ==> guard_passes(#[trigger] gs.deep_view()[j], headers@),
    {
        assert(gs.deep_view()[i as int] == gs@[i as int]@);
        if !evaluate_guard(&gs[i], headers) {
            return false;
        }
    }
    true
}

} // verus!
