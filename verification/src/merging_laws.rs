//! Laws of merging the activation buffers of alternatives: their order does not matter, and
//! what was merged stays as it is.
use vstd::prelude::*;

use crate::activation_alternatives::{
    all_privates, all_reductions, all_sharings, are_valid_devices, collected, devices_of_both,
    increasing, is_valid_reduction, is_valid_sharing, listed_devices, merge_private_step,
    merge_reduction_step, merged_alternatives, merged_private, merged_privates,
    private_device_ids, private_key, reduction_key, sharing_step, widened, PrivateKey,
    PrivateKeyModel, ReductionKey, ReductionKeyModel,
};
use crate::activation_building::{settled, settled_activations};
use crate::activation_plans::{
    allocation_identity, ActivationKey, ActivationKeyModel, SharedActivationModel,
    VulkanDistributedActivationBufferAllocationModel, VulkanDistributedActivationBufferPlanModel,
    VulkanDistributedPrivateIntermediateBufferAllocationModel,
    VulkanDistributedPrivateIntermediateDeviceAllocationModel,
    VulkanDistributedReductionBufferAllocationModel,
};
use crate::ordered::{
    keys_increase, lemma_listed_at, lemma_members_listed, lemma_ordered_listing_exists,
    listed_map, lists_key, ordered_listing, ordered_members, ordered_values,
};
use crate::plan_building::larger;
use crate::sequences::fold_from;
use crate::values::OrderedKey;

verus! {

/// Two steps that succeed lead to the same in the other order.
pub open spec fn commutes<S, T, E>(step: spec_fn(S, T) -> Result<S, E>) -> bool {
    forall|state: S, first: T, second: T|
        #![trigger step(step(state, first)->Ok_0, second)]
        step(state, first) is Ok && step(step(state, first)->Ok_0, second) is Ok ==> step(
            state,
            second,
        ) is Ok && step(step(state, second)->Ok_0, first) == step(
            step(state, first)->Ok_0,
            second,
        )
}

proof fn lemma_fold_shifted<S, T, E>(
    items: Seq<T>,
    index: nat,
    state: S,
    step: spec_fn(S, T) -> Result<S, E>,
)
    requires
        items.len() > 0,
    ensures
        fold_from(items, index + 1, state, step) == fold_from(
            items.drop_first(),
            index,
            state,
            step,
        ),
    decreases items.len() - index,
{
    if index + 1 < items.len() {
        assert(items.drop_first()[index as int] == items[index as int + 1]);
        if step(state, items[index as int + 1]) is Ok {
            lemma_fold_shifted(
                items,
                index + 1,
                step(state, items[index as int + 1])->Ok_0,
                step,
            );
        }
    }
}

proof fn lemma_fold_moves_to_end<S, T, E>(
    items: Seq<T>,
    moved: T,
    index: nat,
    state: S,
    step: spec_fn(S, T) -> Result<S, E>,
)
    requires
        commutes(step),
        index <= items.len(),
        step(state, moved) is Ok,
        fold_from(items, index, step(state, moved)->Ok_0, step) is Ok,
    ensures
        fold_from(items.push(moved), index, state, step) == fold_from(
            items,
            index,
            step(state, moved)->Ok_0,
            step,
        ),
    decreases items.len() - index,
{
    if index < items.len() {
        let item = items[index as int];
        let after = step(state, moved)->Ok_0;
        assert(items.push(moved)[index as int] == item);
        assert(step(step(state, moved)->Ok_0, item) is Ok);
        assert(step(step(state, item)->Ok_0, moved) == step(after, item));
        lemma_fold_moves_to_end(items, moved, index + 1, step(state, item)->Ok_0, step);
    } else {
        assert(items.push(moved)[index as int] == moved);
        assert(fold_from(
            items.push(moved),
            index + 1,
            step(state, moved)->Ok_0,
            step,
        ) == Ok::<S, E>(step(state, moved)->Ok_0));
    }
}

/// Folding two parts leads to the same in the other order.
proof fn lemma_fold_swaps<S, T, E>(
    left: Seq<T>,
    right: Seq<T>,
    state: S,
    step: spec_fn(S, T) -> Result<S, E>,
)
    requires
        commutes(step),
        fold_from(left + right, 0, state, step) is Ok,
    ensures
        fold_from(right + left, 0, state, step) == fold_from(left + right, 0, state, step),
    decreases left.len(),
{
    if left.len() == 0 {
        assert(left + right =~= right);
        assert(right + left =~= right);
    } else {
        let items = left + right;
        let first = left[0];
        assert(items[0] == first);
        lemma_fold_shifted(items, 0, step(state, first)->Ok_0, step);
        lemma_fold_moves_to_end(items.drop_first(), first, 0, state, step);
        let rest = left.drop_first();
        let longer = right.push(first);
        assert(items.drop_first().push(first) =~= rest + longer);
        lemma_fold_swaps(rest, longer, state, step);
        assert(longer + rest =~= right + left);
    }
}

proof fn lemma_fold_of_joined<S, T, E>(
    left: Seq<T>,
    right: Seq<T>,
    index: nat,
    state: S,
    step: spec_fn(S, T) -> Result<S, E>,
)
    requires
        index <= left.len(),
    ensures
        fold_from(left + right, index, state, step) == (match fold_from(left, index, state, step) {
            Ok(next) => fold_from(right, 0, next, step),
            Err(error) => Err(error),
        }),
    decreases left.len() - index,
{
    if index < left.len() {
        assert((left + right)[index as int] == left[index as int]);
        if step(state, left[index as int]) is Ok {
            lemma_fold_of_joined(
                left,
                right,
                index + 1,
                step(state, left[index as int])->Ok_0,
                step,
            );
        }
    } else {
        lemma_fold_of_rest(left, right, 0, state, step);
    }
}

proof fn lemma_fold_of_rest<S, T, E>(
    left: Seq<T>,
    right: Seq<T>,
    index: nat,
    state: S,
    step: spec_fn(S, T) -> Result<S, E>,
)
    ensures
        fold_from(left + right, left.len() + index, state, step) == fold_from(
            right,
            index,
            state,
            step,
        ),
    decreases right.len() - index,
{
    if index < right.len() {
        assert((left + right)[left.len() as int + index] == right[index as int]);
        if step(state, right[index as int]) is Ok {
            lemma_fold_of_rest(
                left,
                right,
                index + 1,
                step(state, right[index as int])->Ok_0,
                step,
            );
        }
    }
}

/// Folding leads to the same with two neighbouring parts in the other order.
proof fn lemma_fold_swaps_within<S, T, E>(
    before: Seq<T>,
    left: Seq<T>,
    right: Seq<T>,
    after: Seq<T>,
    state: S,
    step: spec_fn(S, T) -> Result<S, E>,
)
    requires
        commutes(step),
        fold_from(before + (left + right) + after, 0, state, step) is Ok,
    ensures
        fold_from(before + (right + left) + after, 0, state, step) == fold_from(
            before + (left + right) + after,
            0,
            state,
            step,
        ),
{
    lemma_fold_of_joined(before + (left + right), after, 0, state, step);
    lemma_fold_of_joined(before, left + right, 0, state, step);
    lemma_fold_of_joined(before + (right + left), after, 0, state, step);
    lemma_fold_of_joined(before, right + left, 0, state, step);
    lemma_fold_swaps(left, right, fold_from(before, 0, state, step)->Ok_0, step);
}

proof fn lemma_sharing_commutes()
    ensures
        commutes(sharing_step()),
{
    let step = sharing_step();
    assert forall|
        merged: Map<ActivationKeyModel, SharedActivationModel>,
        first: VulkanDistributedActivationBufferAllocationModel,
        second: VulkanDistributedActivationBufferAllocationModel,
    |
        #![trigger step(step(merged, first)->Ok_0, second)]
        step(merged, first) is Ok && step(step(merged, first)->Ok_0, second) is Ok implies step(
        merged,
        second,
    ) is Ok && step(step(merged, second)->Ok_0, first) == step(
        step(merged, first)->Ok_0,
        second,
    ) by {
        let left = step(step(merged, first)->Ok_0, second)->Ok_0;
        let right = step(step(merged, second)->Ok_0, first)->Ok_0;
        let key = allocation_identity(first)->Ok_0;
        let other = allocation_identity(second)->Ok_0;
        if key == other {
            assert(left[key].signals =~= right[key].signals);
            assert(left[key].devices =~= right[key].devices);
            assert(left[key] == right[key]);
        }
        assert(left =~= right);
    }
}

proof fn lemma_devices_of_both(left: Seq<Seq<char>>, right: Seq<Seq<char>>)
    ensures
        devices_of_both(left, right) == devices_of_both(right, left),
        devices_of_both(left, right).to_set() == left.to_set().union(right.to_set()),
        devices_of_both(left, right).len() == left.to_set().union(right.to_set()).len(),
{
    broadcast use vstd::seq_lib::seq_to_set_is_finite;

    lemma_members_listed::<String>(left.to_set().union(right.to_set()));
    assert(left.to_set().union(right.to_set()) =~= right.to_set().union(left.to_set()));
}

proof fn lemma_reducing_commutes()
    ensures
        commutes(merge_reduction_step()),
{
    let step = merge_reduction_step();
    assert forall|
        merged: Map<ReductionKeyModel, VulkanDistributedReductionBufferAllocationModel>,
        first: VulkanDistributedReductionBufferAllocationModel,
        second: VulkanDistributedReductionBufferAllocationModel,
    |
        #![trigger step(step(merged, first)->Ok_0, second)]
        step(merged, first) is Ok && step(step(merged, first)->Ok_0, second) is Ok implies step(
        merged,
        second,
    ) is Ok && step(step(merged, second)->Ok_0, first) == step(
        step(merged, first)->Ok_0,
        second,
    ) by {
        lemma_reductions_commute(merged, first, second);
    }
}

proof fn lemma_reductions_commute(
    merged: Map<ReductionKeyModel, VulkanDistributedReductionBufferAllocationModel>,
    first: VulkanDistributedReductionBufferAllocationModel,
    second: VulkanDistributedReductionBufferAllocationModel,
)
    requires
        merge_reduction_step()(merged, first) is Ok,
        merge_reduction_step()(merge_reduction_step()(merged, first)->Ok_0, second) is Ok,
    ensures
        merge_reduction_step()(merged, second) is Ok,
        merge_reduction_step()(merge_reduction_step()(merged, second)->Ok_0, first)
            == merge_reduction_step()(merge_reduction_step()(merged, first)->Ok_0, second),
{
    broadcast use vstd::seq_lib::seq_to_set_is_finite;

    let step = merge_reduction_step();
    let key = reduction_key(first);
    let after_first = step(merged, first)->Ok_0;
    let left = step(after_first, second)->Ok_0;
    if key != reduction_key(second) {
        let after_second = step(merged, second)->Ok_0;
        let right = step(after_second, first)->Ok_0;
        assert(left =~= right);
    } else if !merged.contains_key(key) {
        lemma_devices_of_both(first.device_ids, second.device_ids);
        let after_second = step(merged, second)->Ok_0;
        let right = step(after_second, first)->Ok_0;
        assert(left[key] == right[key]);
        assert(left =~= right);
    } else {
        let old_ids = merged[key].device_ids;
        let with_first = devices_of_both(old_ids, first.device_ids);
        let with_second = devices_of_both(old_ids, second.device_ids);
        lemma_devices_of_both(old_ids, first.device_ids);
        lemma_devices_of_both(old_ids, second.device_ids);
        lemma_devices_of_both(with_first, second.device_ids);
        lemma_devices_of_both(with_second, first.device_ids);
        let all = old_ids.to_set().union(first.device_ids.to_set()).union(
            second.device_ids.to_set(),
        );
        assert(with_first.to_set().union(second.device_ids.to_set()) =~= all);
        assert(with_second.to_set().union(first.device_ids.to_set()) =~= all);
        let some = old_ids.to_set().union(second.device_ids.to_set());
        assert(some.subset_of(all));
        vstd::set_lib::lemma_len_subset(some, all);
        let old_plane = merged[key].plane_byte_capacity;
        let plane = larger(larger(old_plane, first.plane_byte_capacity), second.plane_byte_capacity);
        let smaller_plane = larger(old_plane, second.plane_byte_capacity);
        assert(smaller_plane * with_second.len() <= plane * all.len()) by (nonlinear_arith)
            requires
                0 <= smaller_plane <= plane,
                0 <= with_second.len() <= all.len(),
        ;
        let after_second = step(merged, second)->Ok_0;
        let right = step(after_second, first)->Ok_0;
        assert(left[key] == right[key]);
        assert(left =~= right);
    }
}

/// The capacities with those of one more device.
pub open spec fn widened_once(
    capacities: Map<Seq<char>, usize>,
    device: VulkanDistributedPrivateIntermediateDeviceAllocationModel,
) -> Map<Seq<char>, usize> {
    capacities.insert(
        device.device_id,
        if capacities.contains_key(device.device_id) {
            larger(capacities[device.device_id], device.byte_capacity)
        } else {
            device.byte_capacity
        },
    )
}

proof fn lemma_widening_moves(
    capacities: Map<Seq<char>, usize>,
    devices: Seq<VulkanDistributedPrivateIntermediateDeviceAllocationModel>,
    device: VulkanDistributedPrivateIntermediateDeviceAllocationModel,
)
    ensures
        widened(widened_once(capacities, device), devices) == widened_once(
            widened(capacities, devices),
            device,
        ),
    decreases devices.len(),
{
    if devices.len() > 0 {
        let rest = devices.drop_last();
        lemma_widening_moves(capacities, rest, device);
        let before = widened(capacities, rest);
        assert(widened_once(widened_once(before, device), devices.last()) =~= widened_once(
            widened_once(before, devices.last()),
            device,
        ));
    }
}

proof fn lemma_widening_commutes(
    capacities: Map<Seq<char>, usize>,
    left: Seq<VulkanDistributedPrivateIntermediateDeviceAllocationModel>,
    right: Seq<VulkanDistributedPrivateIntermediateDeviceAllocationModel>,
)
    ensures
        widened(widened(capacities, left), right) == widened(widened(capacities, right), left),
    decreases left.len(),
{
    if left.len() > 0 {
        let rest = left.drop_last();
        lemma_widening_commutes(capacities, rest, right);
        lemma_widening_moves(widened(capacities, rest), right, left.last());
    }
}

proof fn lemma_privates_commute()
    ensures
        commutes(merge_private_step()),
{
    let step = merge_private_step();
    assert forall|
        merged: Map<PrivateKeyModel, Map<Seq<char>, usize>>,
        first: VulkanDistributedPrivateIntermediateBufferAllocationModel,
        second: VulkanDistributedPrivateIntermediateBufferAllocationModel,
    |
        #![trigger step(step(merged, first)->Ok_0, second)]
        step(merged, first) is Ok && step(step(merged, first)->Ok_0, second) is Ok implies step(
        merged,
        second,
    ) is Ok && step(step(merged, second)->Ok_0, first) == step(
        step(merged, first)->Ok_0,
        second,
    ) by {
        let key = private_key(first);
        let before = if merged.contains_key(key) {
            merged[key]
        } else {
            Map::empty()
        };
        lemma_widening_commutes(before, first.devices, second.devices);
        let left = step(step(merged, first)->Ok_0, second)->Ok_0;
        let right = step(step(merged, second)->Ok_0, first)->Ok_0;
        assert(left =~= right);
    }
}

proof fn lemma_lists_joined(
    left: Seq<VulkanDistributedActivationBufferPlanModel>,
    right: Seq<VulkanDistributedActivationBufferPlanModel>,
)
    ensures
        all_sharings(left + right) == all_sharings(left) + all_sharings(right),
        all_reductions(left + right) == all_reductions(left) + all_reductions(right),
        all_privates(left + right) == all_privates(left) + all_privates(right),
    decreases right.len(),
{
    if right.len() == 0 {
        assert(left + right =~= left);
        assert(all_sharings(left + right) =~= all_sharings(left) + all_sharings(right));
        assert(all_reductions(left + right) =~= all_reductions(left) + all_reductions(right));
        assert(all_privates(left + right) =~= all_privates(left) + all_privates(right));
    } else {
        assert((left + right).drop_last() =~= left + right.drop_last());
        lemma_lists_joined(left, right.drop_last());
        assert(all_sharings(left + right) =~= all_sharings(left) + all_sharings(right));
        assert(all_reductions(left + right) =~= all_reductions(left) + all_reductions(right));
        assert(all_privates(left + right) =~= all_privates(left) + all_privates(right));
    }
}

/// The order of alternatives does not matter: neighbouring ones can change places, one by
/// one or in groups, and merge to the same.
pub proof fn law_alternatives_merge_in_any_order(
    before: Seq<VulkanDistributedActivationBufferPlanModel>,
    left: Seq<VulkanDistributedActivationBufferPlanModel>,
    right: Seq<VulkanDistributedActivationBufferPlanModel>,
    after: Seq<VulkanDistributedActivationBufferPlanModel>,
)
    requires
        merged_alternatives(before + (left + right) + after) is Ok,
    ensures
        merged_alternatives(before + (right + left) + after) == merged_alternatives(
            before + (left + right) + after,
        ),
{
    let plans = before + (left + right) + after;
    let turned = before + (right + left) + after;
    lemma_lists_joined(left, right);
    lemma_lists_joined(right, left);
    lemma_lists_joined(before, left + right);
    lemma_lists_joined(before, right + left);
    lemma_lists_joined(before + (left + right), after);
    lemma_lists_joined(before + (right + left), after);
    lemma_sharing_commutes();
    lemma_reducing_commutes();
    lemma_privates_commute();
    lemma_fold_swaps_within(
        all_sharings(before),
        all_sharings(left),
        all_sharings(right),
        all_sharings(after),
        Map::empty(),
        sharing_step(),
    );
    lemma_fold_swaps_within(
        all_reductions(before),
        all_reductions(left),
        all_reductions(right),
        all_reductions(after),
        Map::empty(),
        merge_reduction_step(),
    );
    lemma_fold_swaps_within(
        all_privates(before),
        all_privates(left),
        all_privates(right),
        all_privates(after),
        Map::empty(),
        merge_private_step(),
    );
    assert forall|i: int| 0 <= i < turned.len() implies (#[trigger] turned[i]).route
        == plans[0].route by {
        let start = before.len() as int;
        if i < start {
            assert(turned[i] == plans[i]);
        } else if i < start + right.len() {
            assert(turned[i] == plans[i + left.len()]);
        } else if i < start + right.len() + left.len() {
            assert(turned[i] == plans[i - right.len()]);
        } else {
            assert(turned[i] == plans[i]);
        }
    }
    assert(turned[0].route == plans[0].route);
}

/// Merging two alternatives in the other order comes to the same.
pub proof fn law_two_alternatives_merge_in_any_order(
    first: VulkanDistributedActivationBufferPlanModel,
    second: VulkanDistributedActivationBufferPlanModel,
)
    requires
        merged_alternatives(seq![first, second]) is Ok,
    ensures
        merged_alternatives(seq![second, first]) == merged_alternatives(seq![first, second]),
{
    let none = Seq::<VulkanDistributedActivationBufferPlanModel>::empty();
    assert(none + (seq![first] + seq![second]) + none =~= seq![first, second]);
    assert(none + (seq![second] + seq![first]) + none =~= seq![second, first]);
    law_alternatives_merge_in_any_order(none, seq![first], seq![second], none);
}

proof fn lemma_listing_grows<K: OrderedKey, X>(listing: Seq<(K::V, X)>, index: int)
    requires
        keys_increase::<K, X>(listing),
        0 <= index < listing.len(),
    ensures
        keys_increase::<K, X>(listing.take(index)),
        !listed_map(listing.take(index)).contains_key(listing[index].0),
        listed_map(listing.take(index + 1)) == listed_map(listing.take(index)).insert(
            listing[index].0,
            listing[index].1,
        ),
{
    let shorter = listing.take(index);
    let longer = listing.take(index + 1);
    let key = listing[index].0;
    assert forall|i: int, j: int|
        #![trigger shorter[i], shorter[j]]
        0 <= i < j < shorter.len() implies K::before(shorter[i].0, shorter[j].0) by {
        assert(shorter[i] == listing[i] && shorter[j] == listing[j]);
    }
    assert forall|i: int, j: int|
        #![trigger longer[i], longer[j]]
        0 <= i < j < longer.len() implies K::before(longer[i].0, longer[j].0) by {
        assert(longer[i] == listing[i] && longer[j] == listing[j]);
    }
    if lists_key(shorter, key) {
        let i = choose|i: int| 0 <= i < shorter.len() && #[trigger] shorter[i].0 == key;
        assert(shorter[i] == listing[i]);
        assert(K::before(listing[i].0, listing[index].0));
        K::order_is_irreflexive(key);
    }
    let grown = listed_map(shorter).insert(key, listing[index].1);
    assert forall|other: K::V| #[trigger]
        listed_map(longer).contains_key(other) == grown.contains_key(other) by {
        if lists_key(longer, other) {
            let i = choose|i: int| 0 <= i < longer.len() && #[trigger] longer[i].0 == other;
            if i < index {
                assert(shorter[i].0 == other);
            }
        }
        if lists_key(shorter, other) {
            let i = choose|i: int| 0 <= i < shorter.len() && #[trigger] shorter[i].0 == other;
            assert(longer[i].0 == other);
        }
        assert(longer[index].0 == key);
    }
    assert forall|other: K::V| #[trigger] listed_map(longer).contains_key(other) implies listed_map(
        longer,
    )[other] == grown[other] by {
        let i = choose|i: int| 0 <= i < longer.len() && #[trigger] longer[i].0 == other;
        lemma_listed_at::<K, X>(longer, i);
        if i < index {
            assert(shorter[i] == longer[i]);
            lemma_listed_at::<K, X>(shorter, i);
        }
    }
    assert(listed_map(longer) =~= grown);
}

/// The step adds the entry of a listing for an item, to any map that lacks its key.
pub open spec fn adds_entry<A, X, T, E>(
    step: spec_fn(Map<A, X>, T) -> Result<Map<A, X>, E>,
    item: T,
    entry: (A, X),
) -> bool {
    forall|map: Map<A, X>|
        !map.contains_key(entry.0) ==> #[trigger] step(map, item) == Ok::<Map<A, X>, E>(
            map.insert(entry.0, entry.1),
        )
}

/// Folding one item for every entry of a listing comes to the map of the listing.
proof fn lemma_fold_of_listing<K: OrderedKey, X, T, E>(
    listing: Seq<(K::V, X)>,
    items: Seq<T>,
    step: spec_fn(Map<K::V, X>, T) -> Result<Map<K::V, X>, E>,
    index: nat,
)
    requires
        keys_increase::<K, X>(listing),
        items.len() == listing.len(),
        index <= listing.len(),
        forall|i: int|
            0 <= i < listing.len() ==> adds_entry(step, #[trigger] items[i], listing[i]),
    ensures
        fold_from(items, index, listed_map(listing.take(index as int)), step) == Ok::<
            Map<K::V, X>,
            E,
        >(listed_map(listing)),
    decreases listing.len() - index,
{
    if index < listing.len() {
        lemma_listing_grows::<K, X>(listing, index as int);
        assert(adds_entry(step, items[index as int], listing[index as int]));
        lemma_fold_of_listing::<K, X, T, E>(listing, items, step, index + 1);
    } else {
        assert(listing.take(index as int) =~= listing);
    }
}

/// The merged activation can be merged again under its key.
pub open spec fn settles_at(key: ActivationKeyModel, shared: SharedActivationModel) -> bool {
    let allocation = settled()(shared);
    &&& shared.signals.finite()
    &&& shared.devices.finite()
    &&& is_valid_sharing(allocation)
    &&& allocation_identity(allocation) == Ok::<ActivationKeyModel, Seq<char>>(key)
}

proof fn lemma_increasing_members(set: Set<Seq<char>>)
    requires
        set.finite(),
    ensures
        increasing(ordered_members::<String>(set)),
        ordered_members::<String>(set).to_set() == set,
        ordered_members::<String>(set).len() == set.len(),
        forall|member: Seq<char>| #[trigger]
            set.contains(member) ==> ordered_members::<String>(set).contains(member),
{
    lemma_members_listed::<String>(set);
    let members = ordered_members::<String>(set);
    assert forall|i: int| 0 <= i < members.len() - 1 implies crate::values::text_before(
        #[trigger] members[i],
        members[i + 1],
    ) by {
        let next = members[i + 1];
        assert(<String as OrderedKey>::before(members[i], members[i + 1]));
    }
    assert forall|member: Seq<char>| #[trigger] set.contains(member) implies members.contains(
        member,
    ) by {
        assert(members.to_set().contains(member));
    }
}

proof fn lemma_settles(
    key: ActivationKeyModel,
    shared: SharedActivationModel,
    candidate: VulkanDistributedActivationBufferAllocationModel,
)
    requires
        allocation_identity(candidate) == Ok::<ActivationKeyModel, Seq<char>>(key),
        is_valid_sharing(candidate),
        shared.storage == candidate.storage,
        shared.owner_device_id == candidate.owner_device_id,
        shared.component_id == candidate.component_id,
        shared.slot == candidate.slot,
        shared.byte_capacity == candidate.byte_capacity,
        shared.signals.finite(),
        shared.devices.finite(),
        candidate.signal_ids.to_set().subset_of(shared.signals),
        candidate.device_ids.to_set().subset_of(shared.devices),
        !(candidate.storage is ActivationSlot || candidate.storage is Edge) ==> shared.signals
            == candidate.signal_ids.to_set(),
    ensures
        settles_at(key, shared),
{
    broadcast use vstd::seq_lib::seq_to_set_is_finite;

    let allocation = settled()(shared);
    lemma_increasing_members(shared.signals);
    lemma_increasing_members(shared.devices);
    assert(candidate.device_ids.to_set().contains(candidate.owner_device_id));
    let signal = candidate.signal_ids[0];
    assert(candidate.signal_ids.to_set().contains(signal));
    assert(allocation.signal_ids.contains(signal));
    assert(allocation.device_ids.contains(shared.owner_device_id));
    if !(candidate.storage is ActivationSlot || candidate.storage is Edge) {
        assert(candidate.signal_ids =~= seq![signal]);
        assert(candidate.signal_ids.to_set() =~= set![signal]);
        assert(allocation.signal_ids.len() == 1);
        assert(allocation.signal_ids[0] == signal);
    }
}

proof fn lemma_merged_settle(
    candidates: Seq<VulkanDistributedActivationBufferAllocationModel>,
    index: nat,
    merged: Map<ActivationKeyModel, SharedActivationModel>,
)
    requires
        index <= candidates.len(),
        merged.dom().finite(),
        forall|key: ActivationKeyModel| #[trigger]
            merged.contains_key(key) ==> settles_at(key, merged[key]),
        fold_from(candidates, index, merged, sharing_step()) is Ok,
    ensures
        fold_from(candidates, index, merged, sharing_step())->Ok_0.dom().finite(),
        forall|key: ActivationKeyModel| #[trigger]
            fold_from(candidates, index, merged, sharing_step())->Ok_0.contains_key(key)
                ==> settles_at(
                key,
                fold_from(candidates, index, merged, sharing_step())->Ok_0[key],
            ),
    decreases candidates.len() - index,
{
    broadcast use vstd::seq_lib::seq_to_set_is_finite;

    if index < candidates.len() {
        let candidate = candidates[index as int];
        let next = sharing_step()(merged, candidate)->Ok_0;
        let key = allocation_identity(candidate)->Ok_0;
        assert(next == merged.insert(key, next[key]));
        if merged.contains_key(key) {
            let before = merged[key];
            assert(settles_at(key, before));
            lemma_increasing_members(before.signals);
            if !(candidate.storage is ActivationSlot || candidate.storage is Edge) {
                let signal = candidate.signal_ids[0];
                assert(candidate.signal_ids =~= seq![signal]);
                assert(candidate.signal_ids.to_set() =~= set![signal]);
                let members = ordered_members::<String>(before.signals);
                assert(members =~= seq![signal]);
                assert(members.to_set() =~= set![signal]);
                assert(next[key].signals =~= candidate.signal_ids.to_set());
            }
        }
        lemma_settles(key, next[key], candidate);
        lemma_merged_settle(candidates, index + 1, next);
    }
}

proof fn lemma_sharings_stay(merged: Map<ActivationKeyModel, SharedActivationModel>)
    requires
        merged.dom().finite(),
        forall|key: ActivationKeyModel| #[trigger]
            merged.contains_key(key) ==> settles_at(key, merged[key]),
    ensures
        fold_from(settled_activations(merged), 0, Map::empty(), sharing_step()) == Ok::<
            Map<ActivationKeyModel, SharedActivationModel>,
            Seq<char>,
        >(merged),
{
    let listing = ordered_listing::<ActivationKey, SharedActivationModel>(merged);
    let items = settled_activations(merged);
    lemma_ordered_listing_exists::<ActivationKey, SharedActivationModel>(merged);
    assert forall|i: int| 0 <= i < listing.len() implies adds_entry(
        sharing_step(),
        #[trigger] items[i],
        listing[i],
    ) by {
        lemma_listed_at::<ActivationKey, SharedActivationModel>(listing, i);
        let shared = listing[i].1;
        assert(settles_at(listing[i].0, shared));
        lemma_increasing_members(shared.signals);
        lemma_increasing_members(shared.devices);
        assert(items[i] == settled()(shared));
        assert(collected(items[i]) == shared);
    }
    lemma_fold_of_listing::<
        ActivationKey,
        SharedActivationModel,
        VulkanDistributedActivationBufferAllocationModel,
        Seq<char>,
    >(listing, items, sharing_step(), 0);
    assert(listed_map(listing.take(0)) =~= Map::empty());
}

/// The merged reduction can be merged again under its key.
pub open spec fn reduces_at(
    key: ReductionKeyModel,
    reduction: VulkanDistributedReductionBufferAllocationModel,
) -> bool {
    &&& reduction_key(reduction) == key
    &&& is_valid_reduction(reduction)
}

proof fn lemma_merged_reduce(
    candidates: Seq<VulkanDistributedReductionBufferAllocationModel>,
    index: nat,
    merged: Map<ReductionKeyModel, VulkanDistributedReductionBufferAllocationModel>,
)
    requires
        index <= candidates.len(),
        merged.dom().finite(),
        forall|key: ReductionKeyModel| #[trigger]
            merged.contains_key(key) ==> reduces_at(key, merged[key]),
        fold_from(candidates, index, merged, merge_reduction_step()) is Ok,
    ensures
        fold_from(candidates, index, merged, merge_reduction_step())->Ok_0.dom().finite(),
        forall|key: ReductionKeyModel| #[trigger]
            fold_from(candidates, index, merged, merge_reduction_step())->Ok_0.contains_key(key)
                ==> reduces_at(
                key,
                fold_from(candidates, index, merged, merge_reduction_step())->Ok_0[key],
            ),
    decreases candidates.len() - index,
{
    broadcast use vstd::seq_lib::seq_to_set_is_finite;

    if index < candidates.len() {
        let candidate = candidates[index as int];
        let next = merge_reduction_step()(merged, candidate)->Ok_0;
        let key = reduction_key(candidate);
        assert(next == merged.insert(key, next[key]));
        if merged.contains_key(key) {
            let before = merged[key];
            assert(reduces_at(key, before));
            let all = before.device_ids.to_set().union(candidate.device_ids.to_set());
            lemma_increasing_members(all);
            lemma_members_listed::<String>(all);
            let members = ordered_members::<String>(all);
            assert(candidate.device_ids.to_set().contains(candidate.owner_device_id));
            assert(all.contains(candidate.owner_device_id));
            assert(members.contains(candidate.owner_device_id));
            assert forall|i: int, j: int|
                0 <= i < members.len() && 0 <= j < members.len() && i != j implies members[i]
                != members[j] by {
                <String as OrderedKey>::order_is_irreflexive(members[i]);
                if i < j {
                    assert(<String as OrderedKey>::before(members[i], members[j]));
                } else {
                    assert(<String as OrderedKey>::before(members[j], members[i]));
                }
            }
        }
        assert(reduces_at(key, next[key]));
        lemma_merged_reduce(candidates, index + 1, next);
    }
}

proof fn lemma_reductions_stay(
    merged: Map<ReductionKeyModel, VulkanDistributedReductionBufferAllocationModel>,
)
    requires
        merged.dom().finite(),
        forall|key: ReductionKeyModel| #[trigger]
            merged.contains_key(key) ==> reduces_at(key, merged[key]),
    ensures
        fold_from(
            ordered_values::<ReductionKey, VulkanDistributedReductionBufferAllocationModel>(merged),
            0,
            Map::empty(),
            merge_reduction_step(),
        ) == Ok::<
            Map<ReductionKeyModel, VulkanDistributedReductionBufferAllocationModel>,
            Seq<char>,
        >(merged),
{
    let listing = ordered_listing::<
        ReductionKey,
        VulkanDistributedReductionBufferAllocationModel,
    >(merged);
    let items = ordered_values::<ReductionKey, VulkanDistributedReductionBufferAllocationModel>(
        merged,
    );
    lemma_ordered_listing_exists::<ReductionKey, VulkanDistributedReductionBufferAllocationModel>(
        merged,
    );
    assert forall|i: int| 0 <= i < listing.len() implies adds_entry(
        merge_reduction_step(),
        #[trigger] items[i],
        listing[i],
    ) by {
        lemma_listed_at::<ReductionKey, VulkanDistributedReductionBufferAllocationModel>(
            listing,
            i,
        );
        assert(reduces_at(listing[i].0, listing[i].1));
        assert(items[i] == listing[i].1);
    }
    lemma_fold_of_listing::<
        ReductionKey,
        VulkanDistributedReductionBufferAllocationModel,
        VulkanDistributedReductionBufferAllocationModel,
        Seq<char>,
    >(listing, items, merge_reduction_step(), 0);
    assert(listed_map(listing.take(0)) =~= Map::empty());
}

/// The capacities belong to named devices, at least one, and are not zero.
pub open spec fn has_capacities(capacities: Map<Seq<char>, usize>) -> bool {
    &&& capacities.dom().finite()
    &&& capacities.dom().len() > 0
    &&& forall|device_id: Seq<char>| #[trigger]
        capacities.contains_key(device_id) ==> device_id.len() > 0 && capacities[device_id] > 0
}

proof fn lemma_widened_has_capacities(
    capacities: Map<Seq<char>, usize>,
    devices: Seq<VulkanDistributedPrivateIntermediateDeviceAllocationModel>,
)
    requires
        capacities.dom().finite(),
        forall|device_id: Seq<char>| #[trigger]
            capacities.contains_key(device_id) ==> device_id.len() > 0 && capacities[device_id]
                > 0,
        forall|i: int|
            0 <= i < devices.len() ==> (#[trigger] devices[i]).device_id.len() > 0
                && devices[i].byte_capacity > 0,
    ensures
        widened(capacities, devices).dom().finite(),
        capacities.dom().subset_of(widened(capacities, devices).dom()),
        devices.len() > 0 ==> widened(capacities, devices).contains_key(devices[0].device_id),
        forall|device_id: Seq<char>| #[trigger]
            widened(capacities, devices).contains_key(device_id) ==> device_id.len() > 0
                && widened(capacities, devices)[device_id] > 0,
    decreases devices.len(),
{
    if devices.len() > 0 {
        let rest = devices.drop_last();
        assert forall|i: int| 0 <= i < rest.len() implies (#[trigger] rest[i]).device_id.len() > 0
            && rest[i].byte_capacity > 0 by {
            assert(rest[i] == devices[i]);
        }
        lemma_widened_has_capacities(capacities, rest);
        assert(devices[devices.len() - 1].device_id.len() > 0);
        if rest.len() > 0 {
            assert(rest[0] == devices[0]);
        }
    }
}

proof fn lemma_merged_have_capacities(
    candidates: Seq<VulkanDistributedPrivateIntermediateBufferAllocationModel>,
    index: nat,
    merged: Map<PrivateKeyModel, Map<Seq<char>, usize>>,
)
    requires
        index <= candidates.len(),
        merged.dom().finite(),
        forall|key: PrivateKeyModel| #[trigger]
            merged.contains_key(key) ==> has_capacities(merged[key]),
        fold_from(candidates, index, merged, merge_private_step()) is Ok,
    ensures
        fold_from(candidates, index, merged, merge_private_step())->Ok_0.dom().finite(),
        forall|key: PrivateKeyModel| #[trigger]
            fold_from(candidates, index, merged, merge_private_step())->Ok_0.contains_key(key)
                ==> has_capacities(
                fold_from(candidates, index, merged, merge_private_step())->Ok_0[key],
            ),
    decreases candidates.len() - index,
{
    if index < candidates.len() {
        let candidate = candidates[index as int];
        let next = merge_private_step()(merged, candidate)->Ok_0;
        let key = private_key(candidate);
        let before = if merged.contains_key(key) {
            merged[key]
        } else {
            Map::empty()
        };
        lemma_widened_has_capacities(before, candidate.devices);
        let after = widened(before, candidate.devices);
        assert(next == merged.insert(key, after));
        assert(after.dom().contains(candidate.devices[0].device_id));
        assert(after.dom().len() > 0) by {
            if after.dom().len() == 0 {
                assert(after.dom() =~= Set::empty());
            }
        }
        lemma_merged_have_capacities(candidates, index + 1, next);
    }
}

proof fn lemma_listed_devices_widen(
    listing: Seq<(Seq<char>, usize)>,
    devices: Seq<VulkanDistributedPrivateIntermediateDeviceAllocationModel>,
    count: int,
)
    requires
        keys_increase::<String, usize>(listing),
        devices.len() == listing.len(),
        forall|i: int|
            0 <= i < devices.len() ==> (#[trigger] devices[i]).device_id == listing[i].0
                && devices[i].byte_capacity == listing[i].1,
        0 <= count <= listing.len(),
    ensures
        widened(Map::empty(), devices.take(count)) == listed_map(listing.take(count)),
    decreases count,
{
    if count > 0 {
        lemma_listed_devices_widen(listing, devices, count - 1);
        lemma_listing_grows::<String, usize>(listing, count - 1);
        assert(devices.take(count).drop_last() =~= devices.take(count - 1));
        assert(devices.take(count).last() == devices[count - 1]);
    } else {
        assert(widened(Map::empty(), devices.take(0)) =~= listed_map(listing.take(0)));
    }
}

proof fn lemma_capacities_stay(capacities: Map<Seq<char>, usize>)
    requires
        has_capacities(capacities),
    ensures
        listed_devices(capacities).len() > 0,
        are_valid_devices(listed_devices(capacities)),
        widened(Map::empty(), listed_devices(capacities)) == capacities,
{
    let listing = ordered_listing::<String, usize>(capacities);
    let devices = listed_devices(capacities);
    lemma_ordered_listing_exists::<String, usize>(capacities);
    crate::ordered::lemma_listing_len::<String, usize>(listing);
    let ids = private_device_ids(devices);
    assert forall|i: int, j: int|
        0 <= i < ids.len() && 0 <= j < ids.len() && i != j implies ids[i] != ids[j] by {
        assert(ids[i] == listing[i].0 && ids[j] == listing[j].0);
        <String as OrderedKey>::order_is_irreflexive(ids[i]);
        if i < j {
            assert(<String as OrderedKey>::before(listing[i].0, listing[j].0));
        } else {
            assert(<String as OrderedKey>::before(listing[j].0, listing[i].0));
        }
    }
    assert forall|i: int| 0 <= i < devices.len() implies (#[trigger] devices[i]).device_id.len()
        > 0 && devices[i].byte_capacity > 0 by {
        lemma_listed_at::<String, usize>(listing, i);
        assert(capacities.contains_key(listing[i].0));
    }
    lemma_listed_devices_widen(listing, devices, listing.len() as int);
    assert(devices.take(devices.len() as int) =~= devices);
    assert(listing.take(listing.len() as int) =~= listing);
}

proof fn lemma_privates_stay(merged: Map<PrivateKeyModel, Map<Seq<char>, usize>>)
    requires
        merged.dom().finite(),
        forall|key: PrivateKeyModel| #[trigger]
            merged.contains_key(key) ==> has_capacities(merged[key]),
    ensures
        fold_from(merged_privates(merged), 0, Map::empty(), merge_private_step()) == Ok::<
            Map<PrivateKeyModel, Map<Seq<char>, usize>>,
            Seq<char>,
        >(merged),
{
    let listing = ordered_listing::<PrivateKey, Map<Seq<char>, usize>>(merged);
    let items = merged_privates(merged);
    lemma_ordered_listing_exists::<PrivateKey, Map<Seq<char>, usize>>(merged);
    assert forall|i: int| 0 <= i < listing.len() implies adds_entry(
        merge_private_step(),
        #[trigger] items[i],
        listing[i],
    ) by {
        lemma_listed_at::<PrivateKey, Map<Seq<char>, usize>>(listing, i);
        assert(has_capacities(listing[i].1));
        lemma_capacities_stay(listing[i].1);
        assert(items[i] == merged_private()(listing[i]));
        assert(private_key(items[i]) == listing[i].0);
    }
    lemma_fold_of_listing::<
        PrivateKey,
        Map<Seq<char>, usize>,
        VulkanDistributedPrivateIntermediateBufferAllocationModel,
        Seq<char>,
    >(listing, items, merge_private_step(), 0);
    assert(listed_map(listing.take(0)) =~= Map::empty());
}

proof fn lemma_lists_of_one(plan: VulkanDistributedActivationBufferPlanModel)
    ensures
        all_sharings(seq![plan]) == plan.allocations,
        all_reductions(seq![plan]) == plan.reduction_allocations,
        all_privates(seq![plan]) == plan.private_intermediate_allocations,
{
    let rest = seq![plan].drop_last();
    assert(rest =~= Seq::empty());
    assert(all_sharings(rest) =~= Seq::empty());
    assert(all_reductions(rest) =~= Seq::empty());
    assert(all_privates(rest) =~= Seq::empty());
    assert(all_sharings(seq![plan]) =~= plan.allocations);
    assert(all_reductions(seq![plan]) =~= plan.reduction_allocations);
    assert(all_privates(seq![plan]) =~= plan.private_intermediate_allocations);
}

/// Merging a merged plan changes nothing.
pub proof fn law_merged_alternatives_stay_merged(
    plans: Seq<VulkanDistributedActivationBufferPlanModel>,
)
    requires
        merged_alternatives(plans) is Ok,
    ensures
        merged_alternatives(seq![merged_alternatives(plans)->Ok_0]) == merged_alternatives(plans),
{
    let plan = merged_alternatives(plans)->Ok_0;
    let alone = seq![plan];
    lemma_lists_of_one(plan);
    let sharings = fold_from(all_sharings(plans), 0, Map::empty(), sharing_step())->Ok_0;
    let reductions = fold_from(
        all_reductions(plans),
        0,
        Map::empty(),
        merge_reduction_step(),
    )->Ok_0;
    let privates = fold_from(all_privates(plans), 0, Map::empty(), merge_private_step())->Ok_0;
    lemma_merged_settle(all_sharings(plans), 0, Map::empty());
    lemma_merged_reduce(all_reductions(plans), 0, Map::empty());
    lemma_merged_have_capacities(all_privates(plans), 0, Map::empty());
    lemma_sharings_stay(sharings);
    lemma_reductions_stay(reductions);
    lemma_privates_stay(privates);
}

} // verus!
