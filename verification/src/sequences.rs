//! Sums, folds and selections over sequences.
use vstd::prelude::*;

use crate::values::PlainValue;

verus! {

/// The sum of a measure over a sequence.
pub open spec fn sum_of<T>(items: Seq<T>, measure: spec_fn(T) -> nat) -> nat
    decreases items.len(),
{
    if items.len() == 0 {
        0
    } else {
        sum_of(items.drop_last(), measure) + measure(items.last())
    }
}

/// Taking one item more adds that item's measure.
pub proof fn lemma_sum_step<T>(items: Seq<T>, measure: spec_fn(T) -> nat, count: int)
    requires
        0 <= count < items.len(),
    ensures
        sum_of(items.take(count + 1), measure) == sum_of(items.take(count), measure) + measure(
            items[count],
        ),
{
    assert(items.take(count + 1).drop_last() =~= items.take(count));
}

/// The sum over a prefix is at most the sum over the whole.
pub proof fn lemma_sum_prefix<T>(items: Seq<T>, measure: spec_fn(T) -> nat, count: int)
    requires
        0 <= count <= items.len(),
    ensures
        sum_of(items.take(count), measure) <= sum_of(items, measure),
    decreases items.len() - count,
{
    if count == items.len() {
        assert(items.take(count) =~= items);
    } else {
        lemma_sum_step(items, measure, count);
        lemma_sum_prefix(items, measure, count + 1);
    }
}

/// Adds up what an exact count says of the items, where the sum fits.
pub(crate) fn checked_sum<T: DeepView, F: Fn(&T) -> Option<usize>>(
    items: &Vec<T>,
    count: F,
    Ghost(measure): Ghost<spec_fn(T::V) -> nat>,
) -> (total: Option<usize>)
    requires
        forall|item: &T| #[trigger] call_requires(count, (item,)),
        forall|item: &T, number: Option<usize>| #[trigger]
            call_ensures(count, (item,), number) ==> is_checked(
                number,
                measure(item.deep_view()),
            ),
    ensures
        is_checked(total, sum_of(items.deep_view(), measure)),
{
    let ghost all = items.deep_view();
    let mut total: usize = 0;
    for index in 0..items.len()
        invariant
            all == items.deep_view(),
            forall|item: &T| #[trigger] call_requires(count, (item,)),
            forall|item: &T, number: Option<usize>| #[trigger]
                call_ensures(count, (item,), number) ==> is_checked(
                    number,
                    measure(item.deep_view()),
                ),
            total == sum_of(all.take(index as int), measure),
    {
        proof {
            lemma_sum_step(all, measure, index as int);
            lemma_sum_prefix(all, measure, index as int + 1);
            assert(all[index as int] == items@[index as int].deep_view());
        }
        match count(&items[index]) {
            None => {
                return None;
            },
            Some(number) => match total.checked_add(number) {
                None => {
                    return None;
                },
                Some(sum) => {
                    total = sum;
                },
            },
        }
    }
    assert(all.take(all.len() as int) =~= all);
    Some(total)
}

/// The number where it fits, else nothing.
pub open spec fn is_checked(number: Option<usize>, exact: nat) -> bool {
    match number {
        Some(value) => value == exact,
        None => exact > usize::MAX,
    }
}

/// Applies a step to the items from an index on, until one step fails.
pub open spec fn fold_from<S, T, E>(
    items: Seq<T>,
    index: nat,
    state: S,
    step: spec_fn(S, T) -> Result<S, E>,
) -> Result<S, E>
    decreases items.len() - index,
{
    if index >= items.len() {
        Ok(state)
    } else {
        match step(state, items[index as int]) {
            Ok(next) => fold_from(items, index + 1, next, step),
            Err(error) => Err(error),
        }
    }
}

/// The items without those that occur earlier in the sequence.
pub open spec fn distinct<T>(items: Seq<T>) -> Seq<T>
    decreases items.len(),
{
    if items.len() == 0 {
        Seq::empty()
    } else if distinct(items.drop_last()).contains(items.last()) {
        distinct(items.drop_last())
    } else {
        distinct(items.drop_last()).push(items.last())
    }
}

/// Whether the sequence holds the value.
pub fn holds<T: PlainValue>(items: &Vec<T>, value: &T) -> (result: bool)
    ensures
        result == items.deep_view().contains(value.deep_view()),
{
    for index in 0..items.len()
        invariant
            forall|i: int|
                0 <= i < index ==> (#[trigger] items@[i]).deep_view() != value.deep_view(),
    {
        if items[index].same(value) {
            assert(items.deep_view()[index as int] == value.deep_view());
            return true;
        }
    }
    assert forall|i: int| 0 <= i < items.deep_view().len() implies items.deep_view()[i]
        != value.deep_view() by {
        assert(items@[i].deep_view() != value.deep_view());
    }
    false
}

/// Appends the value where the sequence does not hold it yet.
pub fn push_distinct<T: PlainValue>(items: &mut Vec<T>, value: &T)
    ensures
        final(items).deep_view() == (if old(items).deep_view().contains(value.deep_view()) {
            old(items).deep_view()
        } else {
            old(items).deep_view().push(value.deep_view())
        }),
{
    let ghost before = items.deep_view();
    if !holds(items, value) {
        items.push(value.duplicate());
        assert(items.deep_view() =~= before.push(value.deep_view()));
    }
}

/// Appends the value.
pub fn append<T: DeepView>(items: &mut Vec<T>, value: T)
    ensures
        final(items).deep_view() == old(items).deep_view().push(value.deep_view()),
        final(items)@ == old(items)@.push(value),
{
    let ghost before = items.deep_view();
    let ghost model = value.deep_view();
    items.push(value);
    assert(items.deep_view() =~= before.push(model));
}

/// The first item from an index on that satisfies a condition.
pub open spec fn find_from<T>(items: Seq<T>, index: nat, condition: spec_fn(T) -> bool) -> Option<T>
    decreases items.len() - index,
{
    if index >= items.len() {
        None
    } else if condition(items[index as int]) {
        Some(items[index as int])
    } else {
        find_from(items, index + 1, condition)
    }
}

/// The items that satisfy a condition, in their order.
pub open spec fn kept<T>(items: Seq<T>, condition: spec_fn(T) -> bool) -> Seq<T>
    decreases items.len(),
{
    if items.len() == 0 {
        Seq::empty()
    } else if condition(items.last()) {
        kept(items.drop_last(), condition).push(items.last())
    } else {
        kept(items.drop_last(), condition)
    }
}

/// Looking at one item more keeps it where it satisfies the condition.
pub proof fn lemma_kept_step<T>(items: Seq<T>, condition: spec_fn(T) -> bool, count: int)
    requires
        0 <= count < items.len(),
    ensures
        kept(items.take(count + 1), condition) == (if condition(items[count]) {
            kept(items.take(count), condition).push(items[count])
        } else {
            kept(items.take(count), condition)
        }),
{
    assert(items.take(count + 1).drop_last() =~= items.take(count));
}

/// The first index from an index on whose item satisfies a condition.
pub open spec fn index_from<T>(
    items: Seq<T>,
    index: nat,
    condition: spec_fn(T) -> bool,
) -> Option<nat>
    decreases items.len() - index,
{
    if index >= items.len() {
        None
    } else if condition(items[index as int]) {
        Some(index)
    } else {
        index_from(items, index + 1, condition)
    }
}

/// The last item that satisfies a condition.
pub open spec fn find_last<T>(items: Seq<T>, condition: spec_fn(T) -> bool) -> Option<T>
    decreases items.len(),
{
    if items.len() == 0 {
        None
    } else if condition(items.last()) {
        Some(items.last())
    } else {
        find_last(items.drop_last(), condition)
    }
}

/// Inserting an item adds its measure.
pub proof fn lemma_sum_insert<T>(items: Seq<T>, place: int, value: T, measure: spec_fn(T) -> nat)
    requires
        0 <= place <= items.len(),
    ensures
        sum_of(items.insert(place, value), measure) == sum_of(items, measure) + measure(value),
    decreases items.len(),
{
    let grown = items.insert(place, value);
    if place == items.len() {
        assert(grown.drop_last() =~= items);
    } else {
        assert(grown.drop_last() =~= items.drop_last().insert(place, value));
        assert(grown.last() == items.last());
        lemma_sum_insert(items.drop_last(), place, value, measure);
    }
}

} // verus!
