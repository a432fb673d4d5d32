//! Laws of the activation buffers that serve several alternatives.
use vstd::prelude::*;

use crate::activation_alternatives::{
    all_privates, all_reductions, all_sharings, merge_private_step, merge_reduction_step,
    merged_alternatives, merged_private, merged_privates, private_key, reduction_key, same_sharing,
    sharing_step, widened, PrivateKey, PrivateKeyModel, ReductionKey, ReductionKeyModel,
};
use crate::activation_building::{settled, settled_activations};
use crate::activation_plans::{
    allocation_identity, ActivationKey, ActivationKeyModel, SharedActivationModel,
    VulkanDistributedActivationBufferAllocationModel, VulkanDistributedActivationBufferPlanModel,
    VulkanDistributedPrivateIntermediateBufferAllocationModel,
    VulkanDistributedPrivateIntermediateDeviceAllocationModel,
    VulkanDistributedReductionBufferAllocationModel,
};
use crate::ordered::{
    lemma_listed_at, lemma_members_listed, lemma_ordered_listing_exists, lists_key, ordered_listing,
};
use crate::sequences::fold_from;
use crate::values::OrderedKey;

verus! {

/// A shared activation with these signals and devices can stand for an allocation
/// of an alternative.
pub open spec fn covers(
    merged: SharedActivationModel,
    candidate: VulkanDistributedActivationBufferAllocationModel,
) -> bool {
    &&& same_sharing(merged, candidate)
    &&& candidate.signal_ids.to_set().subset_of(merged.signals)
    &&& candidate.device_ids.to_set().subset_of(merged.devices)
    &&& candidate.input_use_count <= merged.input_use_count
    &&& candidate.output_use_count <= merged.output_use_count
}

/// The merged activations cover an allocation of an alternative.
pub open spec fn is_covered(
    merged: Map<ActivationKeyModel, SharedActivationModel>,
    candidate: VulkanDistributedActivationBufferAllocationModel,
) -> bool {
    let key = allocation_identity(candidate)->Ok_0;
    merged.contains_key(key) && covers(merged[key], candidate)
}

/// The merged activations are finite.
pub open spec fn are_finite(merged: Map<ActivationKeyModel, SharedActivationModel>) -> bool {
    &&& merged.dom().finite()
    &&& forall|key: ActivationKeyModel| #[trigger]
        merged.contains_key(key) ==> merged[key].signals.finite() && merged[key].devices.finite()
}

proof fn lemma_sharings_covered(
    merged: Map<ActivationKeyModel, SharedActivationModel>,
    candidates: Seq<VulkanDistributedActivationBufferAllocationModel>,
    index: nat,
)
    requires
        are_finite(merged),
        index <= candidates.len(),
        fold_from(candidates, index, merged, sharing_step()) is Ok,
        forall|i: int| 0 <= i < index ==> is_covered(merged, #[trigger] candidates[i]),
    ensures
        are_finite(fold_from(candidates, index, merged, sharing_step())->Ok_0),
        forall|i: int|
            0 <= i < candidates.len() ==> is_covered(
                fold_from(candidates, index, merged, sharing_step())->Ok_0,
                #[trigger] candidates[i],
            ),
    decreases candidates.len() - index,
{
    broadcast use vstd::seq_lib::seq_to_set_is_finite;

    if index < candidates.len() {
        let candidate = candidates[index as int];
        let next = sharing_step()(merged, candidate)->Ok_0;
        let key = allocation_identity(candidate)->Ok_0;
        assert(next == merged.insert(key, next[key]));
        assert(covers(next[key], candidate));
        assert(next[key].signals.finite() && next[key].devices.finite());
        assert(are_finite(next));
        assert forall|i: int| 0 <= i < index + 1 implies is_covered(
            next,
            #[trigger] candidates[i],
        ) by {
            if i < index {
                assert(is_covered(merged, candidates[i]));
                if allocation_identity(candidates[i])->Ok_0 == key {
                    assert(merged[key].signals.subset_of(next[key].signals));
                    assert(merged[key].devices.subset_of(next[key].devices));
                }
            }
        }
        lemma_sharings_covered(next, candidates, index + 1);
    }
}

/// The allocation has the storage and the bytes of one of an alternative, at least
/// its signals and devices, and counts at least its uses.
pub open spec fn stands_for(
    allocation: VulkanDistributedActivationBufferAllocationModel,
    candidate: VulkanDistributedActivationBufferAllocationModel,
) -> bool {
    &&& allocation.storage == candidate.storage
    &&& allocation.owner_device_id == candidate.owner_device_id
    &&& allocation.component_id == candidate.component_id
    &&& allocation.slot == candidate.slot
    &&& allocation.byte_capacity == candidate.byte_capacity
    &&& candidate.signal_ids.to_set().subset_of(allocation.signal_ids.to_set())
    &&& candidate.device_ids.to_set().subset_of(allocation.device_ids.to_set())
    &&& candidate.input_use_count <= allocation.input_use_count
    &&& candidate.output_use_count <= allocation.output_use_count
}

/// The shared activations that serve several alternatives stand for every shared
/// activation of every alternative.
pub proof fn law_merged_activations_serve_every_alternative(
    plans: Seq<VulkanDistributedActivationBufferPlanModel>,
    index: int,
) -> (place: int)
    requires
        merged_alternatives(plans) is Ok,
        0 <= index < all_sharings(plans).len(),
    ensures
        0 <= place < merged_alternatives(plans)->Ok_0.allocations.len(),
        stands_for(
            merged_alternatives(plans)->Ok_0.allocations[place],
            all_sharings(plans)[index],
        ),
{
    let candidates = all_sharings(plans);
    let merged = fold_from(candidates, 0, Map::empty(), sharing_step())->Ok_0;
    lemma_sharings_covered(Map::empty(), candidates, 0);
    let candidate = candidates[index];
    assert(is_covered(merged, candidate));
    let key = allocation_identity(candidate)->Ok_0;
    let listing = ordered_listing::<ActivationKey, SharedActivationModel>(merged);
    lemma_ordered_listing_exists::<ActivationKey, SharedActivationModel>(merged);
    assert(lists_key(listing, key));
    let k = choose|k: int| 0 <= k < listing.len() && #[trigger] listing[k].0 == key;
    lemma_listed_at::<ActivationKey, SharedActivationModel>(listing, k);
    assert(settled_activations(merged)[k] == settled()(merged[key]));
    lemma_members_listed::<String>(merged[key].signals);
    lemma_members_listed::<String>(merged[key].devices);
    k
}

/// The reduction is of the same dispatch and has at least the plane and the devices
/// of one of an alternative, one plane for each device.
pub open spec fn reduces_for(
    allocation: VulkanDistributedReductionBufferAllocationModel,
    candidate: VulkanDistributedReductionBufferAllocationModel,
) -> bool {
    &&& reduction_key(allocation) == reduction_key(candidate)
    &&& candidate.plane_byte_capacity <= allocation.plane_byte_capacity
    &&& candidate.device_ids.to_set().subset_of(allocation.device_ids.to_set())
    &&& allocation.byte_capacity == allocation.plane_byte_capacity * allocation.device_ids.len()
}

/// The merged reductions cover a reduction of an alternative.
pub open spec fn is_reduced(
    merged: Map<ReductionKeyModel, VulkanDistributedReductionBufferAllocationModel>,
    candidate: VulkanDistributedReductionBufferAllocationModel,
) -> bool {
    let key = reduction_key(candidate);
    merged.contains_key(key) && reduces_for(merged[key], candidate)
}

proof fn lemma_reductions_covered(
    merged: Map<ReductionKeyModel, VulkanDistributedReductionBufferAllocationModel>,
    candidates: Seq<VulkanDistributedReductionBufferAllocationModel>,
    index: nat,
)
    requires
        merged.dom().finite(),
        forall|key: ReductionKeyModel| #[trigger]
            merged.contains_key(key) ==> reduction_key(merged[key]) == key,
        index <= candidates.len(),
        fold_from(candidates, index, merged, merge_reduction_step()) is Ok,
        forall|i: int| 0 <= i < index ==> is_reduced(merged, #[trigger] candidates[i]),
    ensures
        fold_from(candidates, index, merged, merge_reduction_step())->Ok_0.dom().finite(),
        forall|i: int|
            0 <= i < candidates.len() ==> is_reduced(
                fold_from(candidates, index, merged, merge_reduction_step())->Ok_0,
                #[trigger] candidates[i],
            ),
    decreases candidates.len() - index,
{
    broadcast use vstd::seq_lib::seq_to_set_is_finite;

    if index < candidates.len() {
        let candidate = candidates[index as int];
        let next = merge_reduction_step()(merged, candidate)->Ok_0;
        let key = reduction_key(candidate);
        assert(next == merged.insert(key, next[key]));
        if merged.contains_key(key) {
            let devices = merged[key].device_ids.to_set().union(candidate.device_ids.to_set());
            lemma_members_listed::<String>(devices);
            assert(next[key].device_ids.to_set() == devices);
            assert(reduction_key(merged[key]) == key);
        }
        assert(reduces_for(next[key], candidate));
        assert forall|i: int| 0 <= i < index + 1 implies is_reduced(
            next,
            #[trigger] candidates[i],
        ) by {
            if i < index {
                assert(is_reduced(merged, candidates[i]));
            }
        }
        lemma_reductions_covered(next, candidates, index + 1);
    }
}

/// The reductions that serve several alternatives have room for every reduction of
/// every alternative.
pub proof fn law_merged_reductions_serve_every_alternative(
    plans: Seq<VulkanDistributedActivationBufferPlanModel>,
    index: int,
) -> (place: int)
    requires
        merged_alternatives(plans) is Ok,
        0 <= index < all_reductions(plans).len(),
    ensures
        0 <= place < merged_alternatives(plans)->Ok_0.reduction_allocations.len(),
        reduces_for(
            merged_alternatives(plans)->Ok_0.reduction_allocations[place],
            all_reductions(plans)[index],
        ),
{
    let candidates = all_reductions(plans);
    let merged = fold_from(candidates, 0, Map::empty(), merge_reduction_step())->Ok_0;
    lemma_reductions_covered(Map::empty(), candidates, 0);
    let candidate = candidates[index];
    assert(is_reduced(merged, candidate));
    let key = reduction_key(candidate);
    let listing = ordered_listing::<
        ReductionKey,
        VulkanDistributedReductionBufferAllocationModel,
    >(merged);
    lemma_ordered_listing_exists::<ReductionKey, VulkanDistributedReductionBufferAllocationModel>(
        merged,
    );
    assert(lists_key(listing, key));
    let k = choose|k: int| 0 <= k < listing.len() && #[trigger] listing[k].0 == key;
    lemma_listed_at::<ReductionKey, VulkanDistributedReductionBufferAllocationModel>(listing, k);
    k
}

/// The capacities have room for the device.
pub open spec fn has_room(
    capacities: Map<Seq<char>, usize>,
    device: VulkanDistributedPrivateIntermediateDeviceAllocationModel,
) -> bool {
    capacities.contains_key(device.device_id) && device.byte_capacity
        <= capacities[device.device_id]
}

proof fn lemma_widened(
    capacities: Map<Seq<char>, usize>,
    devices: Seq<VulkanDistributedPrivateIntermediateDeviceAllocationModel>,
)
    requires
        capacities.dom().finite(),
    ensures
        widened(capacities, devices).dom().finite(),
        forall|i: int|
            0 <= i < devices.len() ==> has_room(
                widened(capacities, devices),
                #[trigger] devices[i],
            ),
        forall|device: VulkanDistributedPrivateIntermediateDeviceAllocationModel| #[trigger]
            has_room(capacities, device) ==> has_room(widened(capacities, devices), device),
    decreases devices.len(),
{
    if devices.len() > 0 {
        let rest = devices.drop_last();
        lemma_widened(capacities, rest);
        assert forall|i: int| 0 <= i < devices.len() implies has_room(
            widened(capacities, devices),
            #[trigger] devices[i],
        ) by {
            if i < rest.len() {
                assert(has_room(widened(capacities, rest), rest[i]));
            }
        }
    }
}

/// The merged private intermediates have room for one of an alternative.
pub open spec fn is_private(
    merged: Map<PrivateKeyModel, Map<Seq<char>, usize>>,
    candidate: VulkanDistributedPrivateIntermediateBufferAllocationModel,
) -> bool {
    let key = private_key(candidate);
    merged.contains_key(key) && forall|i: int|
        0 <= i < candidate.devices.len() ==> has_room(merged[key], #[trigger] candidate.devices[i])
}

proof fn lemma_privates_covered(
    merged: Map<PrivateKeyModel, Map<Seq<char>, usize>>,
    candidates: Seq<VulkanDistributedPrivateIntermediateBufferAllocationModel>,
    index: nat,
)
    requires
        merged.dom().finite(),
        forall|key: PrivateKeyModel| #[trigger]
            merged.contains_key(key) ==> merged[key].dom().finite(),
        index <= candidates.len(),
        fold_from(candidates, index, merged, merge_private_step()) is Ok,
        forall|i: int| 0 <= i < index ==> is_private(merged, #[trigger] candidates[i]),
    ensures
        fold_from(candidates, index, merged, merge_private_step())->Ok_0.dom().finite(),
        forall|key: PrivateKeyModel| #[trigger]
            fold_from(candidates, index, merged, merge_private_step())->Ok_0.contains_key(key)
                ==> fold_from(
                candidates,
                index,
                merged,
                merge_private_step(),
            )->Ok_0[key].dom().finite(),
        forall|i: int|
            0 <= i < candidates.len() ==> is_private(
                fold_from(candidates, index, merged, merge_private_step())->Ok_0,
                #[trigger] candidates[i],
            ),
    decreases candidates.len() - index,
{
    if index < candidates.len() {
        let candidate = candidates[index as int];
        let next = merge_private_step()(merged, candidate)->Ok_0;
        let key = private_key(candidate);
        let before = if merged.contains_key(key) {
            merged[key]
        } else {
            Map::empty()
        };
        lemma_widened(before, candidate.devices);
        assert(next == merged.insert(key, widened(before, candidate.devices)));
        assert forall|i: int| 0 <= i < index + 1 implies is_private(
            next,
            #[trigger] candidates[i],
        ) by {
            if i < index {
                assert(is_private(merged, candidates[i]));
            }
        }
        lemma_privates_covered(next, candidates, index + 1);
    }
}

/// The private intermediate is between the same dispatches and has at least the
/// bytes of one of an alternative on each of its devices.
pub open spec fn hands_off_for(
    allocation: VulkanDistributedPrivateIntermediateBufferAllocationModel,
    candidate: VulkanDistributedPrivateIntermediateBufferAllocationModel,
) -> bool {
    &&& private_key(allocation) == private_key(candidate)
    &&& forall|i: int|
        0 <= i < candidate.devices.len() ==> keeps_room(
            allocation.devices,
            #[trigger] candidate.devices[i],
        )
}

/// Some device of the list has the name and at least the bytes of the device.
pub open spec fn keeps_room(
    devices: Seq<VulkanDistributedPrivateIntermediateDeviceAllocationModel>,
    device: VulkanDistributedPrivateIntermediateDeviceAllocationModel,
) -> bool {
    exists|k: int|
        0 <= k < devices.len() && (#[trigger] devices[k]).device_id == device.device_id
            && device.byte_capacity <= devices[k].byte_capacity
}

/// The private intermediates that serve several alternatives have room for every
/// private intermediate of every alternative.
pub proof fn law_merged_intermediates_serve_every_alternative(
    plans: Seq<VulkanDistributedActivationBufferPlanModel>,
    index: int,
) -> (place: int)
    requires
        merged_alternatives(plans) is Ok,
        0 <= index < all_privates(plans).len(),
    ensures
        0 <= place < merged_alternatives(plans)->Ok_0.private_intermediate_allocations.len(),
        hands_off_for(
            merged_alternatives(plans)->Ok_0.private_intermediate_allocations[place],
            all_privates(plans)[index],
        ),
{
    let candidates = all_privates(plans);
    let merged = fold_from(candidates, 0, Map::empty(), merge_private_step())->Ok_0;
    lemma_privates_covered(Map::empty(), candidates, 0);
    let candidate = candidates[index];
    assert(is_private(merged, candidate));
    let key = private_key(candidate);
    let listing = ordered_listing::<PrivateKey, Map<Seq<char>, usize>>(merged);
    lemma_ordered_listing_exists::<PrivateKey, Map<Seq<char>, usize>>(merged);
    assert(lists_key(listing, key));
    let k = choose|k: int| 0 <= k < listing.len() && #[trigger] listing[k].0 == key;
    lemma_listed_at::<PrivateKey, Map<Seq<char>, usize>>(listing, k);
    let allocation = merged_privates(merged)[k];
    assert(allocation == merged_private()((key, merged[key])));
    let devices = ordered_listing::<String, usize>(merged[key]);
    lemma_ordered_listing_exists::<String, usize>(merged[key]);
    assert forall|i: int| 0 <= i < candidate.devices.len() implies keeps_room(
        allocation.devices,
        #[trigger] candidate.devices[i],
    ) by {
        let device = candidate.devices[i];
        assert(has_room(merged[key], device));
        assert(lists_key(devices, device.device_id));
        let d = choose|d: int|
            0 <= d < devices.len() && #[trigger] devices[d].0 == device.device_id;
        lemma_listed_at::<String, usize>(devices, d);
        assert(allocation.devices[d].device_id == device.device_id);
    }
    k
}

} // verus!
