//! What "greater" means for a type with a partial order, and the laws that
//! the selection functions rely on.

use std::cmp::Ordering;
use vstd::prelude::*;
use vstd::std_specs::cmp::PartialOrdSpec;

verus! {

/// `a` compares strictly greater than `b`.
pub open spec fn exceeds<T: PartialOrd>(a: T, b: T) -> bool {
    a.partial_cmp_spec(&b) == Some(Ordering::Greater)
}

/// `a` compares strictly less than `b`.
pub open spec fn precedes<T: PartialOrd>(a: T, b: T) -> bool {
    a.partial_cmp_spec(&b) == Some(Ordering::Less)
}

/// The comparison operators of `T` return what its specification says.
pub open spec fn order_is_specified<T: PartialOrd>() -> bool {
    T::obeys_partial_cmp_spec()
}

/// "Greater" on `T` is a strict order: nothing exceeds itself, and the
/// relation is transitive.
pub open spec fn exceeds_is_strict_order<T: PartialOrd>() -> bool {
    &&& forall|x: T| !#[trigger] exceeds(x, x)
    &&& forall|x: T, y: T, z: T|
        #![trigger exceeds(x, y), exceeds(y, z)]
        exceeds(x, y) && exceeds(y, z) ==> exceeds(x, z)
}

/// Any two elements of `s` are equal or one exceeds the other.
pub open spec fn is_totally_ordered<T: PartialOrd>(s: Seq<T>) -> bool {
    forall|i: int, j: int|
        #![trigger s[i], s[j]]
        0 <= i < s.len() && 0 <= j < s.len() ==> s[i] == s[j] || exceeds(s[i], s[j]) || exceeds(
            s[j],
            s[i],
        )
}

} // verus!
