//! Selecting one element of a sequence by its order.

use crate::order::{
    exceeds, exceeds_is_strict_order, is_totally_ordered, order_is_specified, precedes,
};
use crate::text::byte_len;
use vstd::prelude::*;
use vstd::string::to_string_from_display_ensures;
use vstd::string::StringExecFns;

verus! {

/// The error of a selection from a sequence that holds nothing.
#[derive(Debug, PartialEq, Eq, Structural)]
pub struct EmptyInput;

/// The position that a left-to-right scan settles on when it keeps the
/// element it holds unless the next one exceeds it. For an empty sequence
/// the value is 0 and names no element.
pub open spec fn largest_index<T: PartialOrd>(s: Seq<T>) -> int
    decreases s.len(),
{
    if s.len() <= 1 {
        0
    } else {
        let earlier = largest_index(s.drop_last());
        if exceeds(s.last(), s[earlier]) {
            s.len() - 1
        } else {
            earlier
        }
    }
}

/// The scan's position lies inside a non-empty sequence.
pub proof fn lemma_largest_index_in_range<T: PartialOrd>(s: Seq<T>)
    requires
        s.len() > 0,
    ensures
        0 <= largest_index(s) < s.len(),
    decreases s.len(),
{
    if s.len() > 1 {
        lemma_largest_index_in_range(s.drop_last());
    }
}

/// No element after the scan's position exceeds the element there, whatever
/// the order is.
pub proof fn lemma_no_later_element_exceeds<T: PartialOrd>(s: Seq<T>)
    requires
        s.len() > 0,
    ensures
        forall|j: int|
            largest_index(s) < j < s.len() ==> !exceeds(#[trigger] s[j], s[largest_index(s)]),
    decreases s.len(),
{
    if s.len() > 1 {
        let front = s.drop_last();
        lemma_largest_index_in_range(front);
        lemma_no_later_element_exceeds(front);
        assert forall|j: int| largest_index(s) < j < s.len() implies !exceeds(
            #[trigger] s[j],
            s[largest_index(s)],
        ) by {
            if j < s.len() - 1 {
                assert(front[j] == s[j]);
            }
        }
    }
}

/// Under a strict order, no element of a non-empty sequence exceeds the
/// element at the scan's position.
pub proof fn lemma_largest_is_maximal<T: PartialOrd>(s: Seq<T>)
    requires
        s.len() > 0,
        exceeds_is_strict_order::<T>(),
    ensures
        0 <= largest_index(s) < s.len(),
        forall|j: int| 0 <= j < s.len() ==> !exceeds(#[trigger] s[j], s[largest_index(s)]),
    decreases s.len(),
{
    lemma_largest_index_in_range(s);
    if s.len() > 1 {
        let front = s.drop_last();
        let earlier = largest_index(front);
        lemma_largest_is_maximal(front);
        assert forall|j: int| 0 <= j < s.len() implies !exceeds(
            #[trigger] s[j],
            s[largest_index(s)],
        ) by {
            if j < s.len() - 1 {
                assert(front[j] == s[j]);
                assert(!exceeds(front[j], front[earlier]));
                if exceeds(s.last(), s[earlier]) && exceeds(s[j], s.last()) {
                    assert(exceeds(s[j], s[earlier]));
                }
            }
        }
    }
}

/// Where the elements are totally ordered, every element before the scan's
/// position is strictly smaller than the one there: of several greatest
/// elements, the scan settles on the first.
pub proof fn lemma_largest_is_first_maximum<T: PartialOrd>(s: Seq<T>)
    requires
        s.len() > 0,
        exceeds_is_strict_order::<T>(),
        is_totally_ordered(s),
    ensures
        forall|j: int| 0 <= j < largest_index(s) ==> exceeds(s[largest_index(s)], #[trigger] s[j]),
    decreases s.len(),
{
    lemma_largest_index_in_range(s);
    if s.len() > 1 {
        let front = s.drop_last();
        let earlier = largest_index(front);
        assert(is_totally_ordered(front)) by {
            assert forall|i: int, j: int|
                #![trigger front[i], front[j]]
                0 <= i < front.len() && 0 <= j < front.len() implies front[i] == front[j]
                || exceeds(front[i], front[j]) || exceeds(front[j], front[i]) by {
                assert(front[i] == s[i] && front[j] == s[j]);
            }
        }
        lemma_largest_is_maximal(front);
        lemma_largest_is_first_maximum(front);
        assert forall|j: int| 0 <= j < largest_index(s) implies exceeds(
            s[largest_index(s)],
            #[trigger] s[j],
        ) by {
            assert(front[j] == s[j]);
            if exceeds(s.last(), s[earlier]) {
                assert(!exceeds(front[j], front[earlier]));
                assert(s[j] == s[earlier] || exceeds(s[j], s[earlier]) || exceeds(
                    s[earlier],
                    s[j],
                ));
                if s[j] != s[earlier] {
                    assert(exceeds(s.last(), s[earlier]) && exceeds(s[earlier], s[j]));
                }
            }
        }
    }
}

/// The largest element of `list`: the one a left-to-right scan settles on,
/// which of several greatest elements is the first. An empty list is
/// reported as `EmptyInput`.
pub fn largest<T: PartialOrd>(list: &[T]) -> (result: Result<&T, EmptyInput>)
    ensures
        result is Err <==> list@.len() == 0,
        result matches Ok(best) ==> exists|i: int| 0 <= i < list@.len() && list@[i] == *best,
        order_is_specified::<T>() ==> (result matches Ok(best) ==> *best == list@[largest_index(
            list@,
        )]),
        order_is_specified::<T>() && exceeds_is_strict_order::<T>() ==> (result matches Ok(best)
            ==> forall|j: int| 0 <= j < list@.len() ==> !exceeds(#[trigger] list@[j], *best)),
{
    if list.len() == 0 {
        return Err(EmptyInput);
    }
    let mut best: &T = &list[0];
    let ghost mut at: int = 0;
    let mut next: usize = 1;
    while next < list.len()
        invariant
            1 <= next <= list@.len(),
            0 <= at < next,
            *best == list@[at],
            order_is_specified::<T>() ==> at == largest_index(list@.take(next as int)),
        decreases list@.len() - next,
    {
        let item = &list[next];
        proof {
            let seen = list@.take(next + 1);
            assert(seen.drop_last() == list@.take(next as int));
            assert(seen.last() == list@[next as int]);
            lemma_largest_index_in_range(list@.take(next as int));
            assert(list@.take(next as int)[at] == list@[at]);
        }
        if *item > *best {
            best = item;
            proof {
                at = next as int;
            }
        }
        next += 1;
    }
    proof {
        assert(list@.take(next as int) == list@);
        if order_is_specified::<T>() && exceeds_is_strict_order::<T>() {
            lemma_largest_is_maximal(list@);
        }
    }
    Ok(best)
}

/// The longer of two texts by their length in bytes; the second where both
/// are equally long.
pub fn longest<'a>(x: &'a str, y: &'a str) -> (result: &'a str)
    ensures
        result@ == if byte_len(x@) > byte_len(y@) {
            x@
        } else {
            y@
        },
{
    if x.as_bytes().len() > y.as_bytes().len() {
        x
    } else {
        y
    }
}

/// `line` announces `ann`, as its type shows it.
pub open spec fn is_announcement_of<T: std::fmt::Display>(line: Seq<char>, ann: &T) -> bool {
    exists|shown: String| #[trigger]
        to_string_from_display_ensures(ann, shown) && line == "公告: "@ + shown@
}

/// The line that makes `ann` public, and the longer of the two texts `x`
/// and `y`, as `longest` picks it. What `ann` looks like as text is up to
/// its type.
pub fn longest_with_an_announcement<'a, T>(x: &'a str, y: &'a str, ann: T) -> (both: (
    String,
    &'a str,
)) where T: std::fmt::Display
    ensures
        is_announcement_of(both.0@, &ann),
        both.1@ == if byte_len(x@) > byte_len(y@) {
            x@
        } else {
            y@
        },
{
    let mut line = "公告: ".to_owned();
    line.append(ann.to_string().as_str());
    (line, longest(x, y))
}

/// How the first of two values stands to the second.
#[derive(Clone, Copy, Debug, PartialEq, Eq, Structural)]
pub enum Relation {
    /// The first exceeds the second.
    Greater,
    /// The second exceeds the first.
    Less,
    /// Neither exceeds the other.
    Neither,
}

/// How `t` stands to `u` by the order of `T`.
pub open spec fn relation_of<T: PartialOrd>(t: T, u: T) -> Relation {
    if exceeds(t, u) {
        Relation::Greater
    } else if precedes(t, u) {
        Relation::Less
    } else {
        Relation::Neither
    }
}

/// The sign that stands for a relation.
pub open spec fn relation_sign(relation: Relation) -> Seq<char> {
    match relation {
        Relation::Greater => " > "@,
        Relation::Less => " < "@,
        Relation::Neither => " == "@,
    }
}

/// How `t` stands to `u`: greater, less, or neither.
pub fn compare<T: PartialOrd>(t: &T, u: &T) -> (relation: Relation)
    ensures
        order_is_specified::<T>() ==> relation == relation_of(*t, *u),
{
    if *t > *u {
        Relation::Greater
    } else if *t < *u {
        Relation::Less
    } else {
        Relation::Neither
    }
}

/// The line that shows two values with the sign of their relation between
/// them, as in `5 < 10`. `shown_t` and `shown_u` are the values as text.
pub fn comparison_line(shown_t: &str, relation: Relation, shown_u: &str) -> (line: String)
    ensures
        line@ == shown_t@ + relation_sign(relation) + shown_u@,
{
    let mut line = shown_t.to_owned();
    match relation {
        Relation::Greater => line.append(" > "),
        Relation::Less => line.append(" < "),
        Relation::Neither => line.append(" == "),
    }
    line.append(shown_u);
    line
}

/// `line` shows `t` and `u`, each as its type shows it, with the sign of
/// their relation between them.
pub open spec fn is_comparison_of<T: std::fmt::Display + PartialOrd>(
    line: Seq<char>,
    t: &T,
    u: &T,
) -> bool {
    exists|shown_t: String, shown_u: String, relation: Relation|
        {
            &&& #[trigger] to_string_from_display_ensures(t, shown_t)
            &&& #[trigger] to_string_from_display_ensures(u, shown_u)
            &&& order_is_specified::<T>() ==> relation == relation_of(*t, *u)
            &&& line == shown_t@ + #[trigger] relation_sign(relation) + shown_u@
        }
}

/// Compares `t` with `u` and shows both with the sign of their relation
/// between them. What a value looks like as text is up to its type.
pub fn compare_and_print<T>(t: &T, u: &T) -> (line: String) where T: std::fmt::Display + PartialOrd
    ensures
        is_comparison_of(line@, t, u),
{
    let relation = compare(t, u);
    let shown_t = t.to_string();
    let shown_u = u.to_string();
    comparison_line(shown_t.as_str(), relation, shown_u.as_str())
}

} // verus!
