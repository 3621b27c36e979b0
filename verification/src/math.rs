//! Arithmetic on machine integers. Each function asks that its result fits
//! the type, and then returns the exact result.

use vstd::prelude::*;

verus! {

/// The sum of `a` and `b`.
pub fn add(a: i32, b: i32) -> (sum: i32)
    requires
        i32::MIN <= a + b <= i32::MAX,
    ensures
        sum == a + b,
{
    a + b
}

/// The product of `a` and `b`.
pub fn multiply(a: i32, b: i32) -> (product: i32)
    requires
        i32::MIN <= a * b <= i32::MAX,
    ensures
        product == a * b,
{
    a * b
}

/// The square of `x`.
pub fn square(x: i32) -> (squared: i32)
    requires
        x * x <= i32::MAX,
    ensures
        squared == x * x,
{
    assert(x * x >= 0) by (nonlinear_arith);
    x * x
}

/// The sum and the difference of `a` and `b`.
pub fn add_and_subtract(a: i32, b: i32) -> (both: (i32, i32))
    requires
        i32::MIN <= a + b <= i32::MAX,
        i32::MIN <= a - b <= i32::MAX,
    ensures
        both.0 == a + b,
        both.1 == a - b,
{
    (a + b, a - b)
}

/// The distance of `x` from zero.
pub open spec fn spec_absolute_value(x: int) -> int {
    if x >= 0 {
        x
    } else {
        -x
    }
}

/// The distance of `x` from zero. The least `i32` has none that fits.
pub fn absolute_value(x: i32) -> (distance: i32)
    requires
        x != i32::MIN,
    ensures
        distance == spec_absolute_value(x as int),
{
    if x >= 0 {
        x
    } else {
        -x
    }
}

/// The product of the integers from 1 to `n`; 1 for `n == 0`.
pub open spec fn spec_factorial(n: nat) -> nat
    decreases n,
{
    if n == 0 {
        1
    } else {
        n * spec_factorial((n - 1) as nat)
    }
}

/// A factorial is at least 1, and grows with its argument.
pub proof fn lemma_factorial_grows(m: nat, n: nat)
    requires
        m <= n,
    ensures
        1 <= spec_factorial(m) <= spec_factorial(n),
    decreases n,
{
    if n == 0 {
    } else if m == n {
        lemma_factorial_grows((m - 1) as nat, (m - 1) as nat);
        assert(n * spec_factorial((n - 1) as nat) >= 1) by (nonlinear_arith)
            requires
                n >= 1,
                spec_factorial((n - 1) as nat) >= 1,
        ;
    } else {
        lemma_factorial_grows(m, (n - 1) as nat);
        assert(n * spec_factorial((n - 1) as nat) >= spec_factorial((n - 1) as nat))
            by (nonlinear_arith)
            requires
                n >= 1,
                spec_factorial((n - 1) as nat) >= 1,
        ;
    }
}

/// The factorials that fit 64 bits are those of the numbers up to 20.
pub proof fn lemma_factorial_fits(n: nat)
    ensures
        n <= 20 <==> spec_factorial(n) <= u64::MAX,
{
    assert(spec_factorial(20) == 2432902008176640000 && spec_factorial(21)
        == 51090942171709440000) by {
        assert(spec_factorial(0) == 1);
        assert(spec_factorial(1) == 1);
        assert(spec_factorial(2) == 2);
        assert(spec_factorial(3) == 6);
        assert(spec_factorial(4) == 24);
        assert(spec_factorial(5) == 120);
        assert(spec_factorial(6) == 720);
        assert(spec_factorial(7) == 5040);
        assert(spec_factorial(8) == 40320);
        assert(spec_factorial(9) == 362880);
        assert(spec_factorial(10) == 3628800);
        assert(spec_factorial(11) == 39916800);
        assert(spec_factorial(12) == 479001600);
        assert(spec_factorial(13) == 6227020800);
        assert(spec_factorial(14) == 87178291200);
        assert(spec_factorial(15) == 1307674368000);
        assert(spec_factorial(16) == 20922789888000);
        assert(spec_factorial(17) == 355687428096000);
        assert(spec_factorial(18) == 6402373705728000);
        assert(spec_factorial(19) == 121645100408832000);
        assert(spec_factorial(20) == 2432902008176640000);
        assert(spec_factorial(21) == 51090942171709440000);
    }
    if n <= 20 {
        lemma_factorial_grows(n, 20);
    } else {
        lemma_factorial_grows(21, n);
    }
}

/// The factorial of `n`.
pub fn factorial(n: u64) -> (product: u64)
    requires
        n <= 20,
    ensures
        product == spec_factorial(n as nat),
    decreases n,
{
    if n == 0 {
        1
    } else {
        proof {
            lemma_factorial_fits(n as nat);
        }
        n * factorial(n - 1)
    }
}

/// The sum of the elements of `items`.
pub open spec fn spec_sum(items: Seq<i32>) -> int
    decreases items.len(),
{
    if items.len() == 0 {
        0
    } else {
        spec_sum(items.drop_last()) + items.last()
    }
}

/// Every sum of the first elements of `items` fits an `i32`.
pub open spec fn running_sums_fit(items: Seq<i32>) -> bool {
    forall|n: int|
        0 <= n <= items.len() ==> i32::MIN <= #[trigger] spec_sum(items.take(n)) <= i32::MAX
}

/// The sum of the elements of `items`, added up from the first to the last.
pub fn sum_refs_simple(items: &[i32]) -> (sum: i32)
    requires
        running_sums_fit(items@),
    ensures
        sum == spec_sum(items@),
{
    let mut sum: i32 = 0;
    let mut next: usize = 0;
    while next < items.len()
        invariant
            next <= items@.len(),
            running_sums_fit(items@),
            sum == spec_sum(items@.take(next as int)),
        decreases items@.len() - next,
    {
        proof {
            let longer = items@.take(next + 1);
            assert(longer.drop_last() == items@.take(next as int));
            assert(longer.last() == items@[next as int]);
            assert(i32::MIN <= spec_sum(items@.take(next + 1)) <= i32::MAX);
        }
        sum = sum + items[next];
        next += 1;
    }
    assert(items@.take(next as int) == items@);
    sum
}

/// One more than the number in `x`, where there is one.
pub fn plus_one(x: Option<i32>) -> (next: Option<i32>)
    requires
        x != Some(i32::MAX),
    ensures
        next == match x {
            None => None::<i32>,
            Some(i) => Some((i + 1) as i32),
        },
{
    match x {
        None => None,
        Some(i) => Some(i + 1),
    }
}

/// The position of the first even number of `numbers`, or their count
/// where none is even.
pub open spec fn first_even_index(numbers: Seq<i32>) -> int
    decreases numbers.len(),
{
    if numbers.len() == 0 || numbers[0] % 2 == 0 {
        0
    } else {
        1 + first_even_index(numbers.drop_first())
    }
}

/// `first_even_index` is the least position of an even number, or the
/// count.
pub proof fn lemma_first_even_index(numbers: Seq<i32>)
    ensures
        0 <= first_even_index(numbers) <= numbers.len(),
        forall|i: int| 0 <= i < first_even_index(numbers) ==> numbers[i] % 2 != 0,
        first_even_index(numbers) < numbers.len() ==> numbers[first_even_index(numbers)] % 2 == 0,
    decreases numbers.len(),
{
    if numbers.len() != 0 && numbers[0] % 2 != 0 {
        let rest = numbers.drop_first();
        lemma_first_even_index(rest);
        assert forall|i: int| 0 <= i < first_even_index(numbers) implies numbers[i] % 2 != 0 by {
            if i > 0 {
                assert(numbers[i] == rest[i - 1]);
            }
        }
    }
}

/// The first even number of `numbers`, if there is one.
pub fn find_first_even(numbers: &[i32]) -> (found: Option<i32>)
    ensures
        found == if first_even_index(numbers@) < numbers@.len() {
            Some(numbers@[first_even_index(numbers@)])
        } else {
            None::<i32>
        },
{
    let mut next: usize = 0;
    while next < numbers.len()
        invariant
            next <= numbers@.len(),
            forall|i: int| 0 <= i < next ==> numbers@[i] % 2 != 0,
        decreases numbers@.len() - next,
    {
        if numbers[next] % 2 == 0 {
            proof {
                lemma_first_even_index(numbers@);
                let at = first_even_index(numbers@);
                if at < next {
                    assert(numbers@[at] % 2 == 0);
                }
            }
            return Some(numbers[next]);
        }
        next += 1;
    }
    proof {
        lemma_first_even_index(numbers@);
        let at = first_even_index(numbers@);
        if at < numbers@.len() {
            assert(numbers@[at] % 2 == 0);
        }
    }
    None
}

} // verus!
