//! The natural order of names, in which numbers compare by their value.
use vstd::prelude::*;

verus! {

/// How `a` compares with `b` in natural order: -1, 0 or 1.
pub uninterp spec fn natural_order(a: Seq<char>, b: Seq<char>) -> i8;

/// Calls `natord::compare`: -1, 0 or 1 as `a` sorts before, with or after
/// `b` in natural order, named `natural_order`. The comparison treats its two
/// arguments alike, so swapping them reverses the outcome.
#[verifier::external_body]
pub(crate) fn natord_compare(a: &str, b: &str) -> (r: i8)
    ensures
        r == natural_order(a@, b@),
        -1 <= r <= 1,
        r == -natural_order(b@, a@),
{
    match natord::compare(a, b) {
        core::cmp::Ordering::Less => -1,
        core::cmp::Ordering::Equal => 0,
        core::cmp::Ordering::Greater => 1,
    }
}

} // verus!
