//! The activation buffers that several alternatives of a plan can use.
use vstd::prelude::*;

use crate::activation_building::{
    are_distinct, checked_count, checked_references, plan_buffers, private_bytes,
    private_devices, refused, reducing_bytes, reducing_devices, reducing_uses, settle, settled_activations,
    sharing_bytes, sharing_devices, sharing_uses, sum_buffers,
};
use crate::activation_plans::{
    allocation_identity, distributed_activation_buffer_allocation_key, ActivationKey,
    ActivationKeyModel, SharedActivation, SharedActivationModel,
    VulkanDistributedActivationBufferAllocation, VulkanDistributedActivationBufferAllocationModel,
    VulkanDistributedActivationBufferPlan, VulkanDistributedActivationBufferPlanModel,
    VulkanDistributedPrivateIntermediateBufferAllocation,
    VulkanDistributedPrivateIntermediateBufferAllocationModel,
    VulkanDistributedPrivateIntermediateDeviceAllocation,
    VulkanDistributedPrivateIntermediateDeviceAllocationModel,
    VulkanDistributedReductionBufferAllocation, VulkanDistributedReductionBufferAllocationModel,
};
use crate::errors::{plan_agrees, VulkanDistributedPlanError};
use crate::execution_plans::{
    VulkanDistributedExecutionPlanSet, VulkanDistributedExecutionPlanSetModel,
    VulkanSharedResidentBufferRoute,
};
use crate::islands::append_all;
use crate::ordered::{
    ordered_listing, ordered_members, ordered_values, OrderedMap, OrderedSet,
};
use crate::plan_building::larger;
use crate::sequences::{append, fold_from, holds, sum_of};
use crate::values::{text_before, OrderedKey, PlainValue};

verus! {

/// The texts increase strictly.
pub open spec fn increasing(texts: Seq<Seq<char>>) -> bool {
    forall|i: int| 0 <= i < texts.len() - 1 ==> text_before(#[trigger] texts[i], texts[i + 1])
}

/// A shared activation has bytes, a signal, its owner among its devices, and lists
/// signals and devices in increasing order.
pub open spec fn is_valid_sharing(
    allocation: VulkanDistributedActivationBufferAllocationModel,
) -> bool {
    &&& allocation.byte_capacity > 0
    &&& allocation.signal_ids.len() > 0
    &&& allocation.device_ids.len() > 0
    &&& increasing(allocation.signal_ids)
    &&& increasing(allocation.device_ids)
    &&& allocation.device_ids.contains(allocation.owner_device_id)
}

/// The signals and devices of an allocation as sets.
pub open spec fn collected(
    allocation: VulkanDistributedActivationBufferAllocationModel,
) -> SharedActivationModel {
    SharedActivationModel {
        storage: allocation.storage,
        owner_device_id: allocation.owner_device_id,
        component_id: allocation.component_id,
        slot: allocation.slot,
        byte_capacity: allocation.byte_capacity,
        signals: allocation.signal_ids.to_set(),
        devices: allocation.device_ids.to_set(),
        input_use_count: allocation.input_use_count,
        output_use_count: allocation.output_use_count,
    }
}

/// One activation for two alternatives: all signals and devices, and the larger
/// counts.
pub open spec fn shared_by_both(
    merged: SharedActivationModel,
    candidate: VulkanDistributedActivationBufferAllocationModel,
) -> SharedActivationModel {
    SharedActivationModel {
        signals: merged.signals.union(candidate.signal_ids.to_set()),
        devices: merged.devices.union(candidate.device_ids.to_set()),
        input_use_count: larger(merged.input_use_count, candidate.input_use_count),
        output_use_count: larger(merged.output_use_count, candidate.output_use_count),
        ..merged
    }
}

/// The alternatives mean the same buffer.
pub open spec fn same_sharing(
    merged: SharedActivationModel,
    candidate: VulkanDistributedActivationBufferAllocationModel,
) -> bool {
    &&& merged.storage == candidate.storage
    &&& merged.owner_device_id == candidate.owner_device_id
    &&& merged.component_id == candidate.component_id
    &&& merged.slot == candidate.slot
    &&& merged.byte_capacity == candidate.byte_capacity
}

/// Adds a shared activation of an alternative.
pub open spec fn sharing_step() -> spec_fn(
    Map<ActivationKeyModel, SharedActivationModel>,
    VulkanDistributedActivationBufferAllocationModel,
) -> Result<Map<ActivationKeyModel, SharedActivationModel>, Seq<char>> {
    |merged: Map<ActivationKeyModel, SharedActivationModel>,
        candidate: VulkanDistributedActivationBufferAllocationModel|
        match allocation_identity(candidate) {
            Err(message) => Err(message),
            Ok(key) => if !is_valid_sharing(candidate) {
                Err("distributed alternative has an invalid shared activation allocation"@)
            } else if !merged.contains_key(key) {
                Ok(merged.insert(key, collected(candidate)))
            } else if !same_sharing(merged[key], candidate) {
                Err("distributed alternatives disagree on one shared activation identity"@)
            } else {
                Ok(merged.insert(key, shared_by_both(merged[key], candidate)))
            },
        }
}

fn are_increasing(texts: &Vec<String>) -> (result: bool)
    ensures
        result == increasing(texts.deep_view()),
{
    let ghost all = texts.deep_view();
    let mut index: usize = 1;
    while index < texts.len()
        invariant
            1 <= index,
            all == texts.deep_view(),
            forall|i: int|
                0 <= i < index - 1 && i < all.len() - 1 ==> text_before(
                    #[trigger] all[i],
                    all[i + 1],
                ),
        decreases texts.len() - index,
    {
        assert(all[index as int] == texts@[index as int]@);
        assert(all[index as int - 1] == texts@[index as int - 1]@);
        if !texts[index - 1].precedes(&texts[index]) {
            return false;
        }
        index += 1;
    }
    true
}

fn sharing_is_valid(allocation: &VulkanDistributedActivationBufferAllocation) -> (result: bool)
    ensures
        result == is_valid_sharing(allocation.deep_view()),
{
    allocation.byte_capacity > 0 && allocation.signal_ids.len() > 0 && allocation.device_ids.len()
        > 0 && are_increasing(&allocation.signal_ids) && are_increasing(&allocation.device_ids)
        && holds(&allocation.device_ids, &allocation.owner_device_id)
}

fn larger_of(left: usize, right: usize) -> (result: usize)
    ensures
        result == larger(left, right),
{
    if left >= right {
        left
    } else {
        right
    }
}

fn add_sharing(
    merged: &mut OrderedMap<ActivationKey, SharedActivation>,
    candidate: &VulkanDistributedActivationBufferAllocation,
) -> (outcome: Result<(), VulkanDistributedPlanError>)
    ensures
        match outcome {
            Ok(_) => sharing_step()(old(merged).deep_view(), candidate.deep_view()) == Ok::<
                Map<ActivationKeyModel, SharedActivationModel>,
                Seq<char>,
            >(final(merged).deep_view()),
            Err(error) => sharing_step()(old(merged).deep_view(), candidate.deep_view()) == Err::<
                Map<ActivationKeyModel, SharedActivationModel>,
                Seq<char>,
            >(error.0@),
        },
{
    let key = match distributed_activation_buffer_allocation_key(candidate) {
        Err(error) => {
            return Err(error);
        },
        Ok(key) => key,
    };
    if !sharing_is_valid(candidate) {
        return refused("distributed alternative has an invalid shared activation allocation");
    }
    let mut shared: SharedActivation = match merged.get(&key) {
        None => {
            let first = SharedActivation {
                storage: candidate.storage.duplicate(),
                owner_device_id: candidate.owner_device_id.clone(),
                component_id: candidate.component_id.clone(),
                slot: candidate.slot,
                byte_capacity: candidate.byte_capacity,
                signals: OrderedSet::from_values(&candidate.signal_ids),
                devices: OrderedSet::from_values(&candidate.device_ids),
                input_use_count: candidate.input_use_count,
                output_use_count: candidate.output_use_count,
            };
            merged.insert(key, first);
            return Ok(());
        },
        Some(found) => found.duplicate(),
    };
    if !shared.storage.same(&candidate.storage) || shared.owner_device_id
        != candidate.owner_device_id || shared.component_id != candidate.component_id
        || shared.slot != candidate.slot || shared.byte_capacity != candidate.byte_capacity {
        return refused("distributed alternatives disagree on one shared activation identity");
    }
    shared.signals.add_all(&candidate.signal_ids);
    shared.devices.add_all(&candidate.device_ids);
    shared.input_use_count = larger_of(shared.input_use_count, candidate.input_use_count);
    shared.output_use_count = larger_of(shared.output_use_count, candidate.output_use_count);
    merged.insert(key, shared);
    Ok(())
}

/// Owner, dispatch, component and node of a reduction.
pub type ReductionKey = (String, (usize, (String, String)));

/// The model of [`ReductionKey`].
pub type ReductionKeyModel = (Seq<char>, (usize, (Seq<char>, Seq<char>)));

/// The identity of a reduction.
pub open spec fn reduction_key(
    allocation: VulkanDistributedReductionBufferAllocationModel,
) -> ReductionKeyModel {
    (
        allocation.owner_device_id,
        (allocation.dispatch_index, (allocation.component_id, allocation.node_id)),
    )
}

/// A reduction has one plane of bytes for each of its different devices, its owner
/// among them.
pub open spec fn is_valid_reduction(
    allocation: VulkanDistributedReductionBufferAllocationModel,
) -> bool {
    &&& allocation.plane_byte_capacity > 0
    &&& allocation.device_ids.len() > 0
    &&& allocation.byte_capacity == allocation.plane_byte_capacity * allocation.device_ids.len()
    &&& allocation.device_ids.no_duplicates()
    &&& allocation.device_ids.contains(allocation.owner_device_id)
}

/// The devices of either reduction in increasing order.
pub open spec fn devices_of_both(left: Seq<Seq<char>>, right: Seq<Seq<char>>) -> Seq<Seq<char>> {
    ordered_members::<String>(left.to_set().union(right.to_set()))
}

/// Adds a reduction of an alternative.
pub open spec fn merge_reduction_step() -> spec_fn(
    Map<ReductionKeyModel, VulkanDistributedReductionBufferAllocationModel>,
    VulkanDistributedReductionBufferAllocationModel,
) -> Result<Map<ReductionKeyModel, VulkanDistributedReductionBufferAllocationModel>, Seq<char>> {
    |merged: Map<ReductionKeyModel, VulkanDistributedReductionBufferAllocationModel>,
        candidate: VulkanDistributedReductionBufferAllocationModel|
        {
            let key = reduction_key(candidate);
            if candidate.plane_byte_capacity * candidate.device_ids.len() > usize::MAX {
                Err("distributed alternative reduction capacity overflowed"@)
            } else if !is_valid_reduction(candidate) {
                Err("distributed alternative has an invalid reduction allocation"@)
            } else if !merged.contains_key(key) {
                Ok(merged.insert(key, candidate))
            } else {
                let plane = larger(
                    merged[key].plane_byte_capacity,
                    candidate.plane_byte_capacity,
                );
                let device_ids = devices_of_both(merged[key].device_ids, candidate.device_ids);
                if plane * device_ids.len() > usize::MAX {
                    Err("merged distributed reduction capacity overflowed"@)
                } else {
                    Ok(
                        merged.insert(
                            key,
                            VulkanDistributedReductionBufferAllocationModel {
                                plane_byte_capacity: plane,
                                byte_capacity: (plane * device_ids.len()) as usize,
                                device_ids,
                                ..merged[key]
                            },
                        ),
                    )
                }
            }
        }
}

fn add_merged_reduction(
    merged: &mut OrderedMap<ReductionKey, VulkanDistributedReductionBufferAllocation>,
    candidate: &VulkanDistributedReductionBufferAllocation,
) -> (outcome: Result<(), VulkanDistributedPlanError>)
    ensures
        match outcome {
            Ok(_) => merge_reduction_step()(old(merged).deep_view(), candidate.deep_view()) == Ok::<
                Map<ReductionKeyModel, VulkanDistributedReductionBufferAllocationModel>,
                Seq<char>,
            >(final(merged).deep_view()),
            Err(error) => merge_reduction_step()(old(merged).deep_view(), candidate.deep_view())
                == Err::<
                Map<ReductionKeyModel, VulkanDistributedReductionBufferAllocationModel>,
                Seq<char>,
            >(error.0@),
        },
{
    let expected_bytes: usize = match candidate.plane_byte_capacity.checked_mul(
        candidate.device_ids.len(),
    ) {
        None => return refused("distributed alternative reduction capacity overflowed"),
        Some(bytes) => bytes,
    };
    if candidate.plane_byte_capacity == 0 || candidate.device_ids.len() == 0
        || candidate.byte_capacity != expected_bytes || !are_distinct(&candidate.device_ids)
        || !holds(&candidate.device_ids, &candidate.owner_device_id) {
        return refused("distributed alternative has an invalid reduction allocation");
    }
    let key: ReductionKey = (
        candidate.owner_device_id.clone(),
        (candidate.dispatch_index, (candidate.component_id.clone(), candidate.node_id.clone())),
    );
    match merged.get(&key) {
        None => {
            merged.insert(key, candidate.duplicate());
            Ok(())
        },
        Some(found) => {
            let plane_byte_capacity: usize = larger_of(
                found.plane_byte_capacity,
                candidate.plane_byte_capacity,
            );
            let mut devices: OrderedSet<String> = OrderedSet::from_values(&found.device_ids);
            devices.add_all(&candidate.device_ids);
            let device_ids = devices.to_vec();
            assert(device_ids.deep_view().len() == device_ids.len());
            match plane_byte_capacity.checked_mul(device_ids.len()) {
                None => refused("merged distributed reduction capacity overflowed"),
                Some(byte_capacity) => {
                    let both = VulkanDistributedReductionBufferAllocation {
                        owner_device_id: found.owner_device_id.clone(),
                        dispatch_index: found.dispatch_index,
                        component_id: found.component_id.clone(),
                        node_id: found.node_id.clone(),
                        plane_byte_capacity,
                        byte_capacity,
                        device_ids,
                    };
                    merged.insert(key, both);
                    Ok(())
                },
            }
        },
    }
}

/// Producer, consumer, component and signal of a private intermediate.
pub type PrivateKey = (usize, (usize, (String, String)));

/// The model of [`PrivateKey`].
pub type PrivateKeyModel = (usize, (usize, (Seq<char>, Seq<char>)));

/// The identity of a private intermediate.
pub open spec fn private_key(
    allocation: VulkanDistributedPrivateIntermediateBufferAllocationModel,
) -> PrivateKeyModel {
    (
        allocation.producer_dispatch_index,
        (allocation.consumer_dispatch_index, (allocation.component_id, allocation.signal_id)),
    )
}

/// The devices of a private intermediate.
pub open spec fn private_device_ids(
    devices: Seq<VulkanDistributedPrivateIntermediateDeviceAllocationModel>,
) -> Seq<Seq<char>> {
    devices.map_values(
        |device: VulkanDistributedPrivateIntermediateDeviceAllocationModel| device.device_id,
    )
}

/// The devices are different and named, and each has bytes.
pub open spec fn are_valid_devices(
    devices: Seq<VulkanDistributedPrivateIntermediateDeviceAllocationModel>,
) -> bool {
    &&& private_device_ids(devices).no_duplicates()
    &&& forall|i: int|
        0 <= i < devices.len() ==> (#[trigger] devices[i]).device_id.len() > 0
            && devices[i].byte_capacity > 0
}

/// The capacities with those of more devices, the larger of two at each.
pub open spec fn widened(
    capacities: Map<Seq<char>, usize>,
    devices: Seq<VulkanDistributedPrivateIntermediateDeviceAllocationModel>,
) -> Map<Seq<char>, usize>
    decreases devices.len(),
{
    if devices.len() == 0 {
        capacities
    } else {
        let before = widened(capacities, devices.drop_last());
        let device = devices.last();
        before.insert(
            device.device_id,
            if before.contains_key(device.device_id) {
                larger(before[device.device_id], device.byte_capacity)
            } else {
                device.byte_capacity
            },
        )
    }
}

/// Adds a private intermediate of an alternative.
pub open spec fn merge_private_step() -> spec_fn(
    Map<PrivateKeyModel, Map<Seq<char>, usize>>,
    VulkanDistributedPrivateIntermediateBufferAllocationModel,
) -> Result<Map<PrivateKeyModel, Map<Seq<char>, usize>>, Seq<char>> {
    |merged: Map<PrivateKeyModel, Map<Seq<char>, usize>>,
        candidate: VulkanDistributedPrivateIntermediateBufferAllocationModel|
        {
            let key = private_key(candidate);
            if candidate.devices.len() == 0 {
                Err("distributed alternative has an empty private intermediate"@)
            } else if !are_valid_devices(candidate.devices) {
                Err("distributed alternative has an invalid private intermediate allocation"@)
            } else {
                Ok(
                    merged.insert(
                        key,
                        widened(
                            if merged.contains_key(key) {
                                merged[key]
                            } else {
                                Map::empty()
                            },
                            candidate.devices,
                        ),
                    ),
                )
            }
        }
}

fn devices_are_valid(
    devices: &Vec<VulkanDistributedPrivateIntermediateDeviceAllocation>,
) -> (result:
    bool)
    ensures
        result == are_valid_devices(devices.deep_view()),
{
    let ghost all = devices.deep_view();
    let mut device_ids: Vec<String> = Vec::new();
    let mut sound: bool = true;
    for index in 0..devices.len()
        invariant
            all == devices.deep_view(),
            device_ids.len() == index,
            forall|i: int| 0 <= i < index ==> (#[trigger] device_ids@[i])@ == all[i].device_id,
            sound == (forall|i: int|
                0 <= i < index ==> (#[trigger] all[i]).device_id.len() > 0 && all[i].byte_capacity
                    > 0),
    {
        let device = &devices[index];
        assert(all[index as int] == device.deep_view());
        device_ids.push(device.device_id.clone());
        if device.device_id.as_str().is_empty() || device.byte_capacity == 0 {
            sound = false;
        }
    }
    assert(device_ids.deep_view() =~= private_device_ids(all));
    sound && are_distinct(&device_ids)
}

fn widen(
    capacities: &mut OrderedMap<String, usize>,
    devices: &Vec<VulkanDistributedPrivateIntermediateDeviceAllocation>,
)
    ensures
        final(capacities).deep_view() == widened(
            old(capacities).deep_view(),
            devices.deep_view(),
        ),
{
    let ghost all = devices.deep_view();
    let ghost before = capacities.deep_view();
    assert(all.take(0) =~= Seq::empty());
    for index in 0..devices.len()
        invariant
            all == devices.deep_view(),
            capacities.deep_view() == widened(before, all.take(index as int)),
    {
        let device = &devices[index];
        assert(all[index as int] == device.deep_view());
        assert(all.take(index as int + 1).drop_last() =~= all.take(index as int));
        let capacity: usize = match capacities.get(&device.device_id) {
            Some(found) => larger_of(*found, device.byte_capacity),
            None => device.byte_capacity,
        };
        capacities.insert(device.device_id.clone(), capacity);
    }
    assert(all.take(all.len() as int) =~= all);
}

fn add_merged_private(
    merged: &mut OrderedMap<PrivateKey, OrderedMap<String, usize>>,
    candidate: &VulkanDistributedPrivateIntermediateBufferAllocation,
) -> (outcome: Result<(), VulkanDistributedPlanError>)
    ensures
        match outcome {
            Ok(_) => merge_private_step()(old(merged).deep_view(), candidate.deep_view()) == Ok::<
                Map<PrivateKeyModel, Map<Seq<char>, usize>>,
                Seq<char>,
            >(final(merged).deep_view()),
            Err(error) => merge_private_step()(old(merged).deep_view(), candidate.deep_view())
                == Err::<Map<PrivateKeyModel, Map<Seq<char>, usize>>, Seq<char>>(error.0@),
        },
{
    if candidate.devices.len() == 0 {
        return refused("distributed alternative has an empty private intermediate");
    }
    if !devices_are_valid(&candidate.devices) {
        return refused("distributed alternative has an invalid private intermediate allocation");
    }
    let key: PrivateKey = (
        candidate.producer_dispatch_index,
        (
            candidate.consumer_dispatch_index,
            (candidate.component_id.clone(), candidate.signal_id.clone()),
        ),
    );
    let mut capacities: OrderedMap<String, usize> = match merged.get(&key) {
        Some(found) => found.duplicate(),
        None => OrderedMap::new(),
    };
    widen(&mut capacities, &candidate.devices);
    merged.insert(key, capacities);
    Ok(())
}

/// The devices with their capacities in increasing order.
pub open spec fn listed_devices(capacities: Map<Seq<char>, usize>) -> Seq<
    VulkanDistributedPrivateIntermediateDeviceAllocationModel,
> {
    ordered_listing::<String, usize>(capacities).map_values(
        |entry: (Seq<char>, usize)|
            VulkanDistributedPrivateIntermediateDeviceAllocationModel {
                device_id: entry.0,
                byte_capacity: entry.1,
            },
    )
}

/// A private intermediate of merged alternatives.
pub open spec fn merged_private() -> spec_fn((PrivateKeyModel, Map<Seq<char>, usize>)) ->
    VulkanDistributedPrivateIntermediateBufferAllocationModel {
    |entry: (PrivateKeyModel, Map<Seq<char>, usize>)|
        VulkanDistributedPrivateIntermediateBufferAllocationModel {
            producer_dispatch_index: entry.0.0,
            consumer_dispatch_index: entry.0.1.0,
            component_id: entry.0.1.1.0,
            signal_id: entry.0.1.1.1,
            devices: listed_devices(entry.1),
        }
}

/// The private intermediates of merged alternatives in the order of their keys.
pub open spec fn merged_privates(merged: Map<PrivateKeyModel, Map<Seq<char>, usize>>) -> Seq<
    VulkanDistributedPrivateIntermediateBufferAllocationModel,
> {
    ordered_listing::<PrivateKey, Map<Seq<char>, usize>>(merged).map_values(merged_private())
}

fn list_devices(capacities: &OrderedMap<String, usize>) -> (devices: Vec<
    VulkanDistributedPrivateIntermediateDeviceAllocation,
>)
    ensures
        devices.deep_view() == listed_devices(capacities.deep_view()),
{
    let ghost expected = listed_devices(capacities.deep_view());
    let count: usize = capacities.len();
    let mut devices: Vec<VulkanDistributedPrivateIntermediateDeviceAllocation> = Vec::new();
    assert(devices.deep_view() =~= expected.take(0));
    for index in 0..count
        invariant
            count == capacities.listing().len(),
            expected == listed_devices(capacities.deep_view()),
            devices.deep_view() == expected.take(index as int),
    {
        append(
            &mut devices,
            VulkanDistributedPrivateIntermediateDeviceAllocation {
                device_id: capacities.key_at(index).clone(),
                byte_capacity: *capacities.value_at(index),
            },
        );
        assert(expected.take(index as int + 1) =~= expected.take(index as int).push(
            expected[index as int],
        ));
    }
    assert(expected.take(expected.len() as int) =~= expected);
    devices
}

fn list_privates(merged: &OrderedMap<PrivateKey, OrderedMap<String, usize>>) -> (privates: Vec<
    VulkanDistributedPrivateIntermediateBufferAllocation,
>)
    ensures
        privates.deep_view() == merged_privates(merged.deep_view()),
{
    let ghost expected = merged_privates(merged.deep_view());
    let count: usize = merged.len();
    let mut privates: Vec<VulkanDistributedPrivateIntermediateBufferAllocation> = Vec::new();
    assert(privates.deep_view() =~= expected.take(0));
    for index in 0..count
        invariant
            count == merged.listing().len(),
            expected == merged_privates(merged.deep_view()),
            privates.deep_view() == expected.take(index as int),
    {
        let key = merged.key_at(index);
        append(
            &mut privates,
            VulkanDistributedPrivateIntermediateBufferAllocation {
                producer_dispatch_index: key.0,
                consumer_dispatch_index: key.1.0,
                component_id: key.1.1.0.clone(),
                signal_id: key.1.1.1.clone(),
                devices: list_devices(merged.value_at(index)),
            },
        );
        assert(expected.take(index as int + 1) =~= expected.take(index as int).push(
            expected[index as int],
        ));
    }
    assert(expected.take(expected.len() as int) =~= expected);
    privates
}

/// The plan of merged buffers with its totals, or the text of the error.
pub open spec fn totalled_alternatives(
    allocations: Seq<VulkanDistributedActivationBufferAllocationModel>,
    reductions: Seq<VulkanDistributedReductionBufferAllocationModel>,
    privates: Seq<VulkanDistributedPrivateIntermediateBufferAllocationModel>,
    route: VulkanSharedResidentBufferRoute,
) -> Result<VulkanDistributedActivationBufferPlanModel, Seq<char>> {
    let imports = sum_of(allocations, sharing_devices()) + sum_of(reductions, reducing_devices());
    let bytes = sum_of(allocations, sharing_bytes()) + sum_of(reductions, reducing_bytes());
    let devices = sum_of(privates, private_devices());
    let references = sum_of(allocations, sharing_uses()) + sum_of(reductions, reducing_uses()) + 2
        * devices;
    let count = allocations.len() + reductions.len() + devices;
    if imports > usize::MAX {
        Err("merged distributed activation import count overflowed"@)
    } else if bytes > usize::MAX {
        Err("merged distributed shared activation capacity overflowed"@)
    } else if sum_of(privates, private_bytes()) > usize::MAX {
        Err("merged distributed private activation capacity overflowed"@)
    } else if count > usize::MAX {
        Err("merged distributed activation allocation count overflowed"@)
    } else if references > usize::MAX {
        Err("merged distributed activation reference count overflowed"@)
    } else {
        Ok(
            VulkanDistributedActivationBufferPlanModel {
                allocations,
                reduction_allocations: reductions,
                private_intermediate_allocations: privates,
                allocation_count: count as usize,
                import_count: imports as usize,
                reference_count: references as usize,
                total_shared_byte_capacity: bytes as usize,
                total_private_byte_capacity: sum_of(privates, private_bytes()) as usize,
                route,
            },
        )
    }
}

fn sum_both(left: Option<usize>, right: Option<usize>) -> (sum: Option<usize>)
    ensures
        match (left, right) {
            (Some(a), Some(b)) => crate::sequences::is_checked(sum, (a + b) as nat),
            _ => sum is None,
        },
{
    left?.checked_add(right?)
}

fn total_alternatives(
    allocations: Vec<VulkanDistributedActivationBufferAllocation>,
    reductions: Vec<VulkanDistributedReductionBufferAllocation>,
    privates: Vec<VulkanDistributedPrivateIntermediateBufferAllocation>,
    route: VulkanSharedResidentBufferRoute,
) -> (outcome: Result<VulkanDistributedActivationBufferPlan, VulkanDistributedPlanError>)
    ensures
        plan_agrees(
            outcome,
            totalled_alternatives(
                allocations.deep_view(),
                reductions.deep_view(),
                privates.deep_view(),
                route,
            ),
        ),
{
    let sums = sum_buffers(&allocations, &reductions, &privates);
    let ghost devices = sum_of(privates.deep_view(), private_devices());
    let import_count: usize = match sum_both(sums.sharing_devices, sums.reducing_devices) {
        None => return refused("merged distributed activation import count overflowed"),
        Some(count) => count,
    };
    let total_shared_byte_capacity: usize = match sum_both(
        sums.sharing_bytes,
        sums.reducing_bytes,
    ) {
        None => return refused("merged distributed shared activation capacity overflowed"),
        Some(bytes) => bytes,
    };
    let total_private_byte_capacity: usize = match sums.private_bytes {
        None => return refused("merged distributed private activation capacity overflowed"),
        Some(bytes) => bytes,
    };
    let allocation_count: usize = match checked_count(
        allocations.len(),
        reductions.len(),
        sums.private_devices,
        Ghost(devices),
    ) {
        None => return refused("merged distributed activation allocation count overflowed"),
        Some(count) => count,
    };
    let reference_count: usize = match (sums.sharing_uses, sums.reducing_uses) {
        (Some(uses), Some(reduction_uses)) => match checked_references(
            uses,
            reduction_uses,
            sums.private_devices,
            Ghost(devices),
        ) {
            None => return refused("merged distributed activation reference count overflowed"),
            Some(count) => count,
        },
        _ => return refused("merged distributed activation reference count overflowed"),
    };
    Ok(
        VulkanDistributedActivationBufferPlan {
            allocations,
            reduction_allocations: reductions,
            private_intermediate_allocations: privates,
            allocation_count,
            import_count,
            reference_count,
            total_shared_byte_capacity,
            total_private_byte_capacity,
            route,
        },
    )
}

/// The shared activations of plans, plan by plan.
pub open spec fn all_sharings(plans: Seq<VulkanDistributedActivationBufferPlanModel>) -> Seq<
    VulkanDistributedActivationBufferAllocationModel,
>
    decreases plans.len(),
{
    if plans.len() == 0 {
        Seq::empty()
    } else {
        all_sharings(plans.drop_last()) + plans.last().allocations
    }
}

/// The reductions of plans, plan by plan.
pub open spec fn all_reductions(plans: Seq<VulkanDistributedActivationBufferPlanModel>) -> Seq<
    VulkanDistributedReductionBufferAllocationModel,
>
    decreases plans.len(),
{
    if plans.len() == 0 {
        Seq::empty()
    } else {
        all_reductions(plans.drop_last()) + plans.last().reduction_allocations
    }
}

/// The private intermediates of plans, plan by plan.
pub open spec fn all_privates(plans: Seq<VulkanDistributedActivationBufferPlanModel>) -> Seq<
    VulkanDistributedPrivateIntermediateBufferAllocationModel,
>
    decreases plans.len(),
{
    if plans.len() == 0 {
        Seq::empty()
    } else {
        all_privates(plans.drop_last()) + plans.last().private_intermediate_allocations
    }
}

/// The buffers that serve every one of the plans, or the text of the error.
pub open spec fn merged_alternatives(
    plans: Seq<VulkanDistributedActivationBufferPlanModel>,
) -> Result<VulkanDistributedActivationBufferPlanModel, Seq<char>> {
    if plans.len() == 0 {
        Err("distributed activation alternatives must not be empty"@)
    } else if exists|i: int| 0 <= i < plans.len() && (#[trigger] plans[i]).route != plans[0].route {
        Err("distributed activation alternatives require different transport routes"@)
    } else {
        match fold_from(all_sharings(plans), 0, Map::empty(), sharing_step()) {
            Err(message) => Err(message),
            Ok(sharings) => match fold_from(
                all_reductions(plans),
                0,
                Map::empty(),
                merge_reduction_step(),
            ) {
                Err(message) => Err(message),
                Ok(reductions) => match fold_from(
                    all_privates(plans),
                    0,
                    Map::empty(),
                    merge_private_step(),
                ) {
                    Err(message) => Err(message),
                    Ok(privates) => totalled_alternatives(
                        settled_activations(sharings),
                        ordered_values::<
                            ReductionKey,
                            VulkanDistributedReductionBufferAllocationModel,
                        >(reductions),
                        merged_privates(privates),
                        plans[0].route,
                    ),
                },
            },
        }
    }
}

fn merge_sharings(
    allocations: &Vec<VulkanDistributedActivationBufferAllocation>,
) -> (outcome: Result<
    OrderedMap<ActivationKey, SharedActivation>,
    VulkanDistributedPlanError,
>)
    ensures
        plan_agrees(
            outcome,
            fold_from(allocations.deep_view(), 0, Map::empty(), sharing_step()),
        ),
{
    let ghost all = allocations.deep_view();
    let ghost step = sharing_step();
    let mut merged: OrderedMap<ActivationKey, SharedActivation> = OrderedMap::new();
    for index in 0..allocations.len()
        invariant
            all == allocations.deep_view(),
            step == sharing_step(),
            fold_from(all, 0, Map::empty(), step) == fold_from(
                all,
                index as nat,
                merged.deep_view(),
                step,
            ),
    {
        assert(all[index as int] == allocations@[index as int].deep_view());
        match add_sharing(&mut merged, &allocations[index]) {
            Err(error) => {
                return Err(error);
            },
            Ok(_) => {},
        }
    }
    Ok(merged)
}

fn merge_reductions(
    allocations: &Vec<VulkanDistributedReductionBufferAllocation>,
) -> (outcome: Result<
    OrderedMap<ReductionKey, VulkanDistributedReductionBufferAllocation>,
    VulkanDistributedPlanError,
>)
    ensures
        plan_agrees(
            outcome,
            fold_from(allocations.deep_view(), 0, Map::empty(), merge_reduction_step()),
        ),
{
    let ghost all = allocations.deep_view();
    let ghost step = merge_reduction_step();
    let mut merged: OrderedMap<ReductionKey, VulkanDistributedReductionBufferAllocation> =
        OrderedMap::new();
    for index in 0..allocations.len()
        invariant
            all == allocations.deep_view(),
            step == merge_reduction_step(),
            fold_from(all, 0, Map::empty(), step) == fold_from(
                all,
                index as nat,
                merged.deep_view(),
                step,
            ),
    {
        assert(all[index as int] == allocations@[index as int].deep_view());
        match add_merged_reduction(&mut merged, &allocations[index]) {
            Err(error) => {
                return Err(error);
            },
            Ok(_) => {},
        }
    }
    Ok(merged)
}

fn merge_privates(
    allocations: &Vec<VulkanDistributedPrivateIntermediateBufferAllocation>,
) -> (outcome: Result<
    OrderedMap<PrivateKey, OrderedMap<String, usize>>,
    VulkanDistributedPlanError,
>)
    ensures
        plan_agrees(
            outcome,
            fold_from(allocations.deep_view(), 0, Map::empty(), merge_private_step()),
        ),
{
    let ghost all = allocations.deep_view();
    let ghost step = merge_private_step();
    let mut merged: OrderedMap<PrivateKey, OrderedMap<String, usize>> = OrderedMap::new();
    for index in 0..allocations.len()
        invariant
            all == allocations.deep_view(),
            step == merge_private_step(),
            fold_from(all, 0, Map::empty(), step) == fold_from(
                all,
                index as nat,
                merged.deep_view(),
                step,
            ),
    {
        assert(all[index as int] == allocations@[index as int].deep_view());
        match add_merged_private(&mut merged, &allocations[index]) {
            Err(error) => {
                return Err(error);
            },
            Ok(_) => {},
        }
    }
    Ok(merged)
}

/// The buffers of every phase of a plan set, or the text of the error.
pub open spec fn set_buffers(plans: VulkanDistributedExecutionPlanSetModel) -> Result<
    VulkanDistributedActivationBufferPlanModel,
    Seq<char>,
> {
    match plan_buffers(plans.decode) {
        Err(message) => Err(message),
        Ok(decode) => match plan_buffers(plans.decode_batch) {
            Err(message) => Err(message),
            Ok(decode_batch) => match plan_buffers(plans.prefill) {
                Err(message) => Err(message),
                Ok(prefill) => merged_alternatives(seq![decode, decode_batch, prefill]),
            },
        },
    }
}

impl VulkanDistributedActivationBufferPlan {
    /// Both plans share the same activations by the same route.
    pub fn has_same_shared_activation_interface(&self, other: &Self) -> (result: bool)
        ensures
            result == (self.route == other.route && self.deep_view().allocations
                == other.deep_view().allocations),
    {
        self.route == other.route && self.allocations.same(&other.allocations)
    }

    /// The buffers that serve every one of the plans.
    pub fn merged_for_alternatives(plans: &[VulkanDistributedActivationBufferPlan]) -> (outcome:
        Result<Self, VulkanDistributedPlanError>)
        ensures
            plan_agrees(outcome, merged_alternatives(plans.deep_view())),
    {
        let ghost models = plans.deep_view();
        if plans.len() == 0 {
            return refused("distributed activation alternatives must not be empty");
        }
        assert(models[0] == plans@[0].deep_view());
        let route = plans[0].route;
        let mut sharings: Vec<VulkanDistributedActivationBufferAllocation> = Vec::new();
        let mut reductions: Vec<VulkanDistributedReductionBufferAllocation> = Vec::new();
        let mut privates: Vec<VulkanDistributedPrivateIntermediateBufferAllocation> = Vec::new();
        assert(sharings.deep_view() =~= Seq::empty());
        assert(reductions.deep_view() =~= Seq::empty());
        assert(privates.deep_view() =~= Seq::empty());
        for index in 0..plans.len()
            invariant
                models == plans.deep_view(),
                models.len() > 0,
                models[0].route == route,
                forall|i: int| 0 <= i < index ==> (#[trigger] models[i]).route == route,
                sharings.deep_view() == all_sharings(models.take(index as int)),
                reductions.deep_view() == all_reductions(models.take(index as int)),
                privates.deep_view() == all_privates(models.take(index as int)),
        {
            assert(models.take(index as int + 1).drop_last() =~= models.take(index as int));
            assert(models[index as int] == plans@[index as int].deep_view());
            if plans[index].route != route {
                assert(models[index as int].route != models[0].route);
                return refused(
                    "distributed activation alternatives require different transport routes",
                );
            }
            append_all(&mut sharings, &plans[index].allocations);
            append_all(&mut reductions, &plans[index].reduction_allocations);
            append_all(&mut privates, &plans[index].private_intermediate_allocations);
        }
        assert(models.take(models.len() as int) =~= models);
        let shared = match merge_sharings(&sharings) {
            Err(error) => {
                return Err(error);
            },
            Ok(shared) => shared,
        };
        let reduced = match merge_reductions(&reductions) {
            Err(error) => {
                return Err(error);
            },
            Ok(reduced) => reduced,
        };
        let handed_off = match merge_privates(&privates) {
            Err(error) => {
                return Err(error);
            },
            Ok(handed_off) => handed_off,
        };
        total_alternatives(
            settle(&shared),
            reduced.to_values(),
            list_privates(&handed_off),
            route,
        )
    }

    /// The buffers that serve every phase of a plan set.
    pub fn from_execution_plan_set(plans: &VulkanDistributedExecutionPlanSet) -> (outcome: Result<
        Self,
        VulkanDistributedPlanError,
    >)
        ensures
            plan_agrees(outcome, set_buffers(plans.deep_view())),
    {
        let decode = match Self::from_execution_plan(&plans.decode) {
            Err(error) => {
                return Err(error);
            },
            Ok(plan) => plan,
        };
        let decode_batch = match Self::from_execution_plan(&plans.decode_batch) {
            Err(error) => {
                return Err(error);
            },
            Ok(plan) => plan,
        };
        let prefill = match Self::from_execution_plan(&plans.prefill) {
            Err(error) => {
                return Err(error);
            },
            Ok(plan) => plan,
        };
        let ghost expected = seq![
            decode.deep_view(),
            decode_batch.deep_view(),
            prefill.deep_view(),
        ];
        let mut phase_plans: Vec<VulkanDistributedActivationBufferPlan> = Vec::new();
        append(&mut phase_plans, decode);
        append(&mut phase_plans, decode_batch);
        append(&mut phase_plans, prefill);
        assert(phase_plans.deep_view() =~= expected);
        let alternatives = phase_plans.as_slice();
        assert(alternatives.deep_view() =~= expected);
        Self::merged_for_alternatives(alternatives)
    }
}

} // verus!
