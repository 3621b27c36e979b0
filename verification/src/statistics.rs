//! The order of a sample. A sample is given by one integer key for each of
//! its elements, such that an element is less than another exactly when its
//! key is. What the elements themselves are is up to the caller; for
//! binary64 numbers, `order_key` makes the key from a number's bits.

use vstd::prelude::*;

verus! {

/// The highest of the 64 bits of a binary64 number: its sign.
pub const SIGN_BIT: u64 = 0x8000_0000_0000_0000;

/// The bits of positive infinity in binary64: all exponent bits set, no
/// fraction bit set. Bits above them, the sign aside, are not a number.
pub const INFINITY_BITS: u64 = 0x7FF0_0000_0000_0000;

/// The bits of a binary64 number without its sign.
pub open spec fn magnitude_bits(bits: u64) -> int {
    if bits >= SIGN_BIT {
        bits - SIGN_BIT
    } else {
        bits as int
    }
}

/// The bits stand for a number, infinite or not, and not for a NaN.
pub open spec fn is_number(bits: u64) -> bool {
    magnitude_bits(bits) <= INFINITY_BITS
}

/// The key of a binary64 number: the bits of its magnitude, taken below
/// zero where the sign bit is set. By the layout of binary64, a number is
/// less than another exactly when its key is less, and the two zeros have
/// the same key; the contracts here speak of the bits only.
pub open spec fn spec_order_key(bits: u64) -> int {
    if bits >= SIGN_BIT {
        -magnitude_bits(bits)
    } else {
        magnitude_bits(bits)
    }
}

/// The key by which a binary64 number with the given bits is ordered, or
/// `None` where the bits are those of a NaN, which has no place in an
/// order.
pub fn order_key(bits: u64) -> (key: Option<i64>)
    ensures
        key is Some <==> is_number(bits),
        key matches Some(k) ==> k == spec_order_key(bits),
{
    let negative = bits >= SIGN_BIT;
    let magnitude = if negative {
        bits - SIGN_BIT
    } else {
        bits
    };
    if magnitude > INFINITY_BITS {
        None
    } else if negative {
        Some(-(magnitude as i64))
    } else {
        Some(magnitude as i64)
    }
}

/// Keys mirror the sign: a number and its negative have keys that add up to
/// zero, so both zeros have the key 0. Among the numbers of one sign, the
/// key grows with the magnitude.
pub proof fn lemma_order_key_mirrors_sign(bits: u64, other: u64)
    requires
        bits < SIGN_BIT,
        other < SIGN_BIT,
    ensures
        spec_order_key(bits) + spec_order_key((bits + SIGN_BIT) as u64) == 0,
        spec_order_key(0) == 0 && spec_order_key(SIGN_BIT) == 0,
        bits < other <==> spec_order_key(bits) < spec_order_key(other),
        bits < other <==> spec_order_key((bits + SIGN_BIT) as u64) > spec_order_key(
            (other + SIGN_BIT) as u64,
        ),
{
}

/// The element at position `a` stands before the one at position `b` in
/// ascending order: its key is less, or the keys are equal and it came
/// first.
pub open spec fn comes_before(keys: Seq<i64>, a: int, b: int) -> bool {
    keys[a] < keys[b] || (keys[a] == keys[b] && a < b)
}

/// The position `p` is listed in `order`.
pub open spec fn lists(order: Seq<usize>, p: int) -> bool {
    exists|i: int| 0 <= i < order.len() && #[trigger] order[i] == p
}

/// `order` lists every position of `keys`, in ascending order of the keys,
/// positions with equal keys in their own order.
pub open spec fn is_ascending_order(keys: Seq<i64>, order: Seq<usize>) -> bool {
    &&& order.len() == keys.len()
    &&& forall|i: int| 0 <= i < order.len() ==> (#[trigger] order[i]) < keys.len()
    &&& forall|i: int, j: int|
        0 <= i < j < order.len() ==> comes_before(
            keys,
            #[trigger] order[i] as int,
            #[trigger] order[j] as int,
        )
    &&& forall|p: int| 0 <= p < keys.len() ==> #[trigger] lists(order, p)
}

/// One pair stands before another or is the same: its first part is less,
/// or the first parts are equal and its second part is not greater.
pub open spec fn pair_le(a: (i64, usize), b: (i64, usize)) -> bool {
    a.0 < b.0 || (a.0 == b.0 && a.1 <= b.1)
}

/// Calls `sort` of the standard library on a vector of pairs of integers.
/// The contract claims what its documentation says: afterwards the vector
/// holds the same pairs, each as often as before, in ascending order, where
/// pairs are ordered by their first parts and then by their second.
#[verifier::external_body]
fn sort_pairs(pairs: &mut Vec<(i64, usize)>)
    ensures
        final(pairs)@.to_multiset() == old(pairs)@.to_multiset(),
        forall|i: int, j: int|
            0 <= i < j < final(pairs)@.len() ==> pair_le(
                #[trigger] final(pairs)@[i],
                #[trigger] final(pairs)@[j],
            ),
{
    pairs.sort();
}

/// The positions of `keys` in ascending order of the keys. Positions with
/// equal keys keep their order.
pub fn ascending_order(keys: &[i64]) -> (order: Vec<usize>)
    ensures
        is_ascending_order(keys@, order@),
{
    let mut pairs: Vec<(i64, usize)> = Vec::new();
    let mut next: usize = 0;
    while next < keys.len()
        invariant
            next <= keys@.len(),
            pairs@.len() == next,
            forall|k: int| 0 <= k < next ==> #[trigger] pairs@[k] == (keys@[k], k as usize),
        decreases keys@.len() - next,
    {
        pairs.push((keys[next], next));
        next += 1;
    }
    let ghost unsorted = pairs@;
    sort_pairs(&mut pairs);
    let ghost sorted = pairs@;
    proof {
        broadcast use vstd::seq_lib::group_to_multiset_ensures;

        assert(unsorted.no_duplicates());
        unsorted.lemma_multiset_has_no_duplicates();
        sorted.lemma_multiset_has_no_duplicates_conv();
        assert(sorted.len() == unsorted.len()) by {
            assert(sorted.to_multiset().len() == unsorted.to_multiset().len());
        }
        assert forall|i: int| 0 <= i < sorted.len() implies (#[trigger] sorted[i]).1 < keys@.len()
            && sorted[i].0 == keys@[sorted[i].1 as int] by {
            assert(sorted.contains(sorted[i]));
            assert(unsorted.to_multiset().count(sorted[i]) > 0);
            assert(unsorted.contains(sorted[i]));
            let k = choose|k: int| 0 <= k < unsorted.len() && unsorted[k] == sorted[i];
            assert(unsorted[k] == (keys@[k], k as usize));
        }
    }
    let mut order: Vec<usize> = Vec::new();
    let mut taken: usize = 0;
    while taken < pairs.len()
        invariant
            taken <= pairs@.len(),
            pairs@ == sorted,
            order@.len() == taken,
            forall|k: int| 0 <= k < taken ==> #[trigger] order@[k] == sorted[k].1,
        decreases pairs@.len() - taken,
    {
        order.push(pairs[taken].1);
        taken += 1;
    }
    proof {
        assert forall|i: int, j: int| 0 <= i < j < order@.len() implies comes_before(
            keys@,
            #[trigger] order@[i] as int,
            #[trigger] order@[j] as int,
        ) by {
            assert(pair_le(sorted[i], sorted[j]));
            assert(sorted[i] != sorted[j]);
        }
        assert forall|p: int| 0 <= p < keys@.len() implies #[trigger] lists(order@, p) by {
            broadcast use vstd::seq_lib::group_to_multiset_ensures;

            assert(unsorted.contains(unsorted[p]));
            assert(sorted.to_multiset().count(unsorted[p]) > 0);
            assert(sorted.contains(unsorted[p]));
            let i = choose|i: int| 0 <= i < sorted.len() && sorted[i] == unsorted[p];
            assert(order@[i] == p);
        }
    }
    order
}

/// A sample of several elements holds one that is not a number, so that
/// its elements have no order.
#[derive(Debug, PartialEq, Eq, Structural)]
pub struct NotANumber {
    /// The position of the first such element.
    pub position: usize,
}

/// The keys of a sample of binary64 numbers, given by their bits. An
/// element that is not a number gets the key 0.
pub open spec fn sample_keys(sample: Seq<u64>) -> Seq<i64> {
    Seq::new(
        sample.len(),
        |i: int|
            if is_number(sample[i]) {
                spec_order_key(sample[i]) as i64
            } else {
                0i64
            },
    )
}

/// The sample can be ordered: it has at most one element, or all its
/// elements are numbers.
pub open spec fn is_ordered_sample(sample: Seq<u64>) -> bool {
    sample.len() < 2 || forall|i: int| 0 <= i < sample.len() ==> is_number(#[trigger] sample[i])
}

/// The positions of a sample of binary64 numbers, given by their bits, in
/// ascending order of the numbers; equal numbers, the two zeros among them,
/// keep their order. A sample of two or more elements, one of which is not
/// a number, has no order: it is refused, with the position of the first
/// such element.
pub fn sample_order(sample: &[u64]) -> (result: Result<Vec<usize>, NotANumber>)
    ensures
        match result {
            Ok(order) => is_ordered_sample(sample@) && is_ascending_order(
                sample_keys(sample@),
                order@,
            ),
            Err(refused) => {
                &&& sample@.len() >= 2
                &&& refused.position < sample@.len()
                &&& !is_number(sample@[refused.position as int])
                &&& forall|i: int| 0 <= i < refused.position ==> is_number(#[trigger] sample@[i])
            },
        },
{
    let mut keys: Vec<i64> = Vec::new();
    let mut next: usize = 0;
    while next < sample.len()
        invariant
            next <= sample@.len(),
            keys@ == sample_keys(sample@.take(next as int)),
            sample@.len() >= 2 ==> forall|i: int| 0 <= i < next ==> is_number(#[trigger] sample@[i]),
        decreases sample@.len() - next,
    {
        let key = match order_key(sample[next]) {
            Some(key) => key,
            None => {
                if sample.len() >= 2 {
                    return Err(NotANumber { position: next });
                }
                0
            },
        };
        keys.push(key);
        next += 1;
        assert(keys@ =~= sample_keys(sample@.take(next as int)));
    }
    assert(sample@.take(next as int) == sample@);
    Ok(ascending_order(keys.as_slice()))
}

/// The keys of a sample admit one ascending order only.
pub proof fn lemma_ascending_order_is_unique(keys: Seq<i64>, first: Seq<usize>, second: Seq<usize>)
    requires
        is_ascending_order(keys, first),
        is_ascending_order(keys, second),
    ensures
        first == second,
{
    lemma_orders_agree(keys, first, second, keys.len() as int);
    assert(first =~= second);
}

/// Two ascending orders of the same keys agree on their first `n` places.
proof fn lemma_orders_agree(keys: Seq<i64>, first: Seq<usize>, second: Seq<usize>, n: int)
    requires
        is_ascending_order(keys, first),
        is_ascending_order(keys, second),
        0 <= n <= keys.len(),
    ensures
        forall|i: int| 0 <= i < n ==> first[i] == second[i],
    decreases n,
{
    if n > 0 {
        lemma_orders_agree(keys, first, second, n - 1);
        let at = n - 1;
        let a = first[at] as int;
        let b = second[at] as int;
        if a != b {
            assert(lists(second, a) && lists(first, b));
            let in_second = choose|i: int| 0 <= i < second.len() && #[trigger] second[i] == a;
            let in_first = choose|i: int| 0 <= i < first.len() && #[trigger] first[i] == b;
            if in_second < at {
                assert(first[in_second] == second[in_second]);
                assert(comes_before(keys, first[in_second] as int, first[at] as int));
            } else {
                assert(in_second > at);
                assert(comes_before(keys, second[at] as int, second[in_second] as int));
                if in_first < at {
                    assert(first[in_first] == second[in_first]);
                    assert(comes_before(keys, second[in_first] as int, second[at] as int));
                } else {
                    assert(in_first > at);
                    assert(comes_before(keys, first[at] as int, first[in_first] as int));
                }
            }
        }
    }
}

/// The positions of the central elements of a sorted sample of `count`
/// elements: the middle one, twice, where `count` is odd, and the two
/// around the middle where it is even. The median is the mean of the
/// elements at the two positions. A sample without elements has none.
pub fn median_positions(count: usize) -> (positions: Option<(usize, usize)>)
    ensures
        positions is None <==> count == 0,
        positions matches Some((lower, upper)) ==> {
            &&& lower <= upper < count
            &&& lower + upper == count - 1
            &&& upper - lower == if count % 2 == 0 {
                1int
            } else {
                0int
            }
        },
{
    if count == 0 {
        None
    } else if count % 2 == 0 {
        let mid = count / 2;
        Some((mid - 1, mid))
    } else {
        Some((count / 2, count / 2))
    }
}

/// In ascending order the first key is the least and the last the
/// greatest, and the keys at the central positions lie between them.
pub proof fn lemma_median_lies_between(keys: Seq<i64>, order: Seq<usize>, lower: int, upper: int)
    requires
        is_ascending_order(keys, order),
        0 <= lower <= upper < keys.len(),
    ensures
        forall|p: int| 0 <= p < keys.len() ==> keys[order[0] as int] <= #[trigger] keys[p],
        forall|p: int|
            0 <= p < keys.len() ==> #[trigger] keys[p] <= keys[order[keys.len() - 1] as int],
        keys[order[0] as int] <= keys[order[lower] as int] <= keys[order[upper] as int]
            <= keys[order[keys.len() - 1] as int],
{
    assert forall|p: int| 0 <= p < keys.len() implies keys[order[0] as int] <= #[trigger] keys[p]
        && keys[p] <= keys[order[keys.len() - 1] as int] by {
        assert(lists(order, p));
        let i = choose|i: int| 0 <= i < order.len() && #[trigger] order[i] == p;
        if 0 < i {
            assert(comes_before(keys, order[0] as int, order[i] as int));
        }
        if i < keys.len() - 1 {
            assert(comes_before(keys, order[i] as int, order[keys.len() - 1] as int));
        }
    }
    if lower < upper {
        assert(comes_before(keys, order[lower] as int, order[upper] as int));
    }
}

} // verus!
