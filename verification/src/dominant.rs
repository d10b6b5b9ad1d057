//! Selection of the dominant (largest) of three channel values.

use vstd::prelude::*;
use vstd::std_specs::cmp::PartialOrdIs;
use vstd::std_specs::cmp::PartialOrdSpec;

verus! {

/// The value that `max3` selects: the first argument when it is at least
/// as large as both others, else the second when it is at least as large as
/// the third, else the third.
pub open spec fn max3_spec<T: PartialOrd>(a: T, b: T, c: T) -> T {
    if a.is_ge(&b) && a.is_ge(&c) {
        a
    } else if b.is_ge(&c) {
        b
    } else {
        c
    }
}

/// The largest of three levels.
pub open spec fn max3_level(a: nat, b: nat, c: nat) -> nat {
    if a >= b && a >= c {
        a
    } else if b >= c {
        b
    } else {
        c
    }
}

/// Returns the largest of three values, preferring the earlier argument on
/// ties. For a type whose comparison is not known to follow its
/// specification nothing is promised.
pub fn max3<T: PartialOrd>(a: T, b: T, c: T) -> (m: T)
    ensures
        T::obeys_partial_cmp_spec() ==> m == max3_spec(a, b, c),
{
    if a >= b && a >= c {
        a
    } else if b >= c {
        b
    } else {
        c
    }
}

/// On machine integers `max3_spec` is the largest of the three levels.
pub proof fn lemma_max3_u32(a: u32, b: u32, c: u32)
    ensures
        max3_spec(a, b, c) as nat == max3_level(a as nat, b as nat, c as nat),
        max3_spec(a, b, c) >= a,
        max3_spec(a, b, c) >= b,
        max3_spec(a, b, c) >= c,
{
}

} // verus!
