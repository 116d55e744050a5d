//! The order of positions, as `<` and `>` decide it.
use std::cmp::Ordering;
use vstd::prelude::*;
use vstd::std_specs::cmp::PartialOrdSpec;

verus! {

/// Whether `<` and `>` on `P` return what `P` specifies for its comparison.
pub open spec fn obeys_order<P: PartialOrd>() -> bool {
    P::obeys_partial_cmp_spec()
}

/// `a` comes strictly before `b`.
pub open spec fn precedes<P: PartialOrd>(a: P, b: P) -> bool {
    a.partial_cmp_spec(&b) == Some(Ordering::Less)
}

/// `a` comes strictly after `b`.
pub open spec fn follows<P: PartialOrd>(a: P, b: P) -> bool {
    a.partial_cmp_spec(&b) == Some(Ordering::Greater)
}

/// The later of two positions; the first where neither comes before the other.
pub open spec fn later<P: PartialOrd>(a: P, b: P) -> P {
    if precedes(a, b) {
        b
    } else {
        a
    }
}

} // verus!
