//! Functions that make functions.

use vstd::prelude::*;

verus! {

/// The function that adds `x` to its argument. It can be called where the
/// sum fits an `i32`.
pub fn make_adder<'a>(x: &'a i32) -> (adder: impl Fn(i32) -> i32 + 'a)
    ensures
        forall|y: i32| i32::MIN <= *x + y <= i32::MAX ==> call_requires(adder, (y,)),
        forall|y: i32, sum: i32| call_ensures(adder, (y,), sum) ==> sum == *x + y,
{
    move |y: i32| -> (sum: i32)
        requires
            i32::MIN <= *x + y <= i32::MAX,
        ensures
            sum == *x + y,
        { *x + y }
}

} // verus!
