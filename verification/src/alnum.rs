use vstd::prelude::*;
use std::cmp::Ordering;

verus! {

/// What `alphanumeric_sort::compare_str` gives for two texts, as -1 for
/// `Less`, 0 for `Equal` and 1 for `Greater`.
pub uninterp spec fn alphanumeric_order(a: Seq<char>, b: Seq<char>) -> i8;

/// Calls `alphanumeric_sort::compare_str`, which compares two texts with
/// runs of ASCII digits taken by their numeric value. Claimed: the result
/// is `alphanumeric_order` of the two texts (a function of them alone),
/// and it is one of -1, 0, 1 (the three variants of `Ordering`). The
/// comparison reads both texts by the same steps with the roles swapped,
/// so swapping the texts turns the result around, and a text compares
/// equal to itself. Not claimed: that the order is transitive; the crate
/// documents that after equal digit runs the order of characters on
/// different sides of U+00FF is reversed, and its source gives no short
/// argument that three texts always compare consistently.
#[verifier::external_body]
pub(crate) fn compare_alphanumeric(a: &str, b: &str) -> (r: i8)
    ensures
        r == alphanumeric_order(a@, b@),
        -1 <= r <= 1,
        r == -alphanumeric_order(b@, a@),
        a@ == b@ ==> r == 0,
{
    match alphanumeric_sort::compare_str(a, b) {
        Ordering::Less => -1,
        Ordering::Equal => 0,
        Ordering::Greater => 1,
    }
}

} // verus!
