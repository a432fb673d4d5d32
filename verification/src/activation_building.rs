//! The activation buffers that an execution plan needs.
use vstd::prelude::*;

use crate::activation_plans::{
    accumulate_activation_allocation, used_activation, ActivationKey, ActivationKeyModel,
    SharedActivation, SharedActivationModel, VulkanDistributedActivationAccess,
    VulkanDistributedActivationBufferAllocation, VulkanDistributedActivationBufferAllocationModel,
    VulkanDistributedActivationBufferPlan, VulkanDistributedActivationBufferPlanModel,
    VulkanDistributedPrivateIntermediateBufferAllocation,
    VulkanDistributedPrivateIntermediateBufferAllocationModel,
    VulkanDistributedPrivateIntermediateDeviceAllocation,
    VulkanDistributedPrivateIntermediateDeviceAllocationModel,
    VulkanDistributedReductionBufferAllocation, VulkanDistributedReductionBufferAllocationModel,
};
use crate::dispatch_shards::{VulkanDistributedDispatchShard, VulkanDistributedDispatchShardModel};
use crate::errors::{plan_agrees, VulkanDistributedPlanError};
use crate::execution_plans::{
    VulkanDistributedActivationSlot, VulkanDistributedActivationSlotModel,
    VulkanDistributedDispatchPlan, VulkanDistributedDispatchPlanModel,
    VulkanDistributedExecutionPlan, VulkanDistributedExecutionPlanModel,
    VulkanPhysicalExecutionIslandPlan, VulkanPhysicalExecutionIslandPlanModel,
    VulkanSharedResidentBufferRoute,
};
use crate::islands::{
    append_all, dense_local_shard_handoff, hands_off_locally, list_shard_device_ids,
    shard_device_ids,
};
use crate::ordered::{ordered_members, ordered_values, OrderedMap, OrderedSet};
use crate::sequences::{append, checked_sum, find_from, fold_from, is_checked, sum_of};
use crate::text::{debug_text, decimal, decimal_text, join4, join5, quoted};
use crate::values::PlainValue;

verus! {

/// The private handoffs that were found.
#[derive(Debug, PartialEq, Eq)]
pub struct PrivateHandoffs {
    pub producers: OrderedSet<usize>,
    pub consumers: OrderedSet<usize>,
    pub allocations: Vec<VulkanDistributedPrivateIntermediateBufferAllocation>,
}

/// The model of [`PrivateHandoffs`].
pub struct PrivateHandoffsModel {
    pub producers: Set<usize>,
    pub consumers: Set<usize>,
    pub allocations: Seq<VulkanDistributedPrivateIntermediateBufferAllocationModel>,
}

impl DeepView for PrivateHandoffs {
    type V = PrivateHandoffsModel;

    open spec fn deep_view(&self) -> PrivateHandoffsModel {
        PrivateHandoffsModel {
            producers: self.producers.deep_view(),
            consumers: self.consumers.deep_view(),
            allocations: self.allocations.deep_view(),
        }
    }
}

impl Clone for PrivateHandoffs {
    fn clone(&self) -> (copy: Self)
        ensures
            copy.deep_view() == self.deep_view(),
    {
        self.duplicate()
    }
}

impl PlainValue for PrivateHandoffs {
    fn duplicate(&self) -> (copy: Self) {
        PrivateHandoffs {
            producers: self.producers.duplicate(),
            consumers: self.consumers.duplicate(),
            allocations: self.allocations.duplicate(),
        }
    }

    fn same(&self, other: &Self) -> (equal: bool) {
        self.producers.same(&other.producers)
            && self.consumers.same(&other.consumers)
            && self.allocations.same(&other.allocations)
    }
}

/// The shared activations and reductions that were found.
#[derive(Debug, PartialEq, Eq)]
pub struct ActivationUses {
    pub shared: OrderedMap<ActivationKey, SharedActivation>,
    pub reductions: Vec<VulkanDistributedReductionBufferAllocation>,
    pub reduced: OrderedSet<(String, usize)>,
}

/// The model of [`ActivationUses`].
pub struct ActivationUsesModel {
    pub shared: Map<ActivationKeyModel, SharedActivationModel>,
    pub reductions: Seq<VulkanDistributedReductionBufferAllocationModel>,
    pub reduced: Set<(Seq<char>, usize)>,
}

impl DeepView for ActivationUses {
    type V = ActivationUsesModel;

    open spec fn deep_view(&self) -> ActivationUsesModel {
        ActivationUsesModel {
            shared: self.shared.deep_view(),
            reductions: self.reductions.deep_view(),
            reduced: self.reduced.deep_view(),
        }
    }
}

impl Clone for ActivationUses {
    fn clone(&self) -> (copy: Self)
        ensures
            copy.deep_view() == self.deep_view(),
    {
        self.duplicate()
    }
}

impl PlainValue for ActivationUses {
    fn duplicate(&self) -> (copy: Self) {
        ActivationUses {
            shared: self.shared.duplicate(),
            reductions: self.reductions.duplicate(),
            reduced: self.reduced.duplicate(),
        }
    }

    fn same(&self, other: &Self) -> (equal: bool) {
        self.shared.same(&other.shared)
            && self.reductions.same(&other.reductions)
            && self.reduced.same(&other.reduced)
    }
}

/// What the devices of a handoff keep of the intermediate.
pub open spec fn handed_off(shards: Seq<VulkanDistributedDispatchShardModel>) -> Seq<
    VulkanDistributedPrivateIntermediateDeviceAllocationModel,
> {
    shards.map_values(
        |shard: VulkanDistributedDispatchShardModel|
            VulkanDistributedPrivateIntermediateDeviceAllocationModel {
                device_id: shard.device_id,
                byte_capacity: shard.output_byte_count,
            },
    )
}

/// Adds the handoff from a dispatch to the next one, where it stays private.
pub open spec fn with_handoff(
    found: PrivateHandoffsModel,
    producer: VulkanDistributedDispatchPlanModel,
    consumer: VulkanDistributedDispatchPlanModel,
) -> Result<PrivateHandoffsModel, Seq<char>> {
    if !hands_off_locally(producer, consumer) {
        Ok(found)
    } else if found.producers.contains(producer.dispatch_index) || found.consumers.contains(
        consumer.dispatch_index,
    ) {
        Err("distributed private intermediate dispatch is not one-to-one"@)
    } else if !shard_device_ids(producer.shards).no_duplicates() {
        Err(
            "private intermediate "@ + producer.node_id + " -> "@ + consumer.node_id
                + " repeats a participant device"@,
        )
    } else {
        Ok(
            PrivateHandoffsModel {
                producers: found.producers.insert(producer.dispatch_index),
                consumers: found.consumers.insert(consumer.dispatch_index),
                allocations: found.allocations.push(
                    VulkanDistributedPrivateIntermediateBufferAllocationModel {
                        producer_dispatch_index: producer.dispatch_index,
                        consumer_dispatch_index: consumer.dispatch_index,
                        component_id: producer.component_id,
                        signal_id: producer.output_activation.signal_id,
                        devices: handed_off(producer.shards),
                    },
                ),
            },
        )
    }
}

/// Adds the handoffs to the dispatches from an index on.
pub open spec fn handoffs_from(
    dispatches: Seq<VulkanDistributedDispatchPlanModel>,
    index: nat,
    found: PrivateHandoffsModel,
) -> Result<PrivateHandoffsModel, Seq<char>>
    decreases dispatches.len() - index,
{
    if index >= dispatches.len() {
        Ok(found)
    } else {
        match with_handoff(found, dispatches[index - 1], dispatches[index as int]) {
            Err(message) => Err(message),
            Ok(next) => handoffs_from(dispatches, index + 1, next),
        }
    }
}

/// Adds the handoffs of an island.
pub open spec fn handoff_step() -> spec_fn(
    PrivateHandoffsModel,
    VulkanPhysicalExecutionIslandPlanModel,
) -> Result<PrivateHandoffsModel, Seq<char>> {
    |found: PrivateHandoffsModel, island: VulkanPhysicalExecutionIslandPlanModel|
        handoffs_from(island.dispatches, 1, found)
}

/// No handoffs.
pub open spec fn no_handoffs() -> PrivateHandoffsModel {
    PrivateHandoffsModel {
        producers: Set::empty(),
        consumers: Set::empty(),
        allocations: Seq::empty(),
    }
}

/// Whether the values are all different.
pub(crate) fn are_distinct(values: &Vec<String>) -> (result: bool)
    ensures
        result == values.deep_view().no_duplicates(),
{
    let set = OrderedSet::from_values(values);
    let ghost all = values.deep_view();
    let count: usize = set.len();
    proof {
        if all.no_duplicates() {
            all.unique_seq_to_set();
        }
        if all.to_set().len() == all.len() {
            all.lemma_no_dup_set_cardinality();
        }
    }
    count == values.len()
}

fn list_handed_off(shards: &Vec<VulkanDistributedDispatchShard>) -> (devices: Vec<
    VulkanDistributedPrivateIntermediateDeviceAllocation,
>)
    ensures
        devices.deep_view() == handed_off(shards.deep_view()),
{
    let ghost expected = handed_off(shards.deep_view());
    let mut devices: Vec<VulkanDistributedPrivateIntermediateDeviceAllocation> = Vec::new();
    assert(devices.deep_view() =~= expected.take(0));
    for index in 0..shards.len()
        invariant
            expected == handed_off(shards.deep_view()),
            devices.deep_view() == expected.take(index as int),
    {
        let shard = &shards[index];
        assert(shards.deep_view()[index as int] == shard.deep_view());
        append(
            &mut devices,
            VulkanDistributedPrivateIntermediateDeviceAllocation {
                device_id: shard.device_id.clone(),
                byte_capacity: shard.output_byte_count,
            },
        );
        assert(expected.take(index as int + 1) =~= expected.take(index as int).push(
            expected[index as int],
        ));
    }
    assert(expected.take(expected.len() as int) =~= expected);
    devices
}

fn add_handoff(
    found: &mut PrivateHandoffs,
    producer: &VulkanDistributedDispatchPlan,
    consumer: &VulkanDistributedDispatchPlan,
) -> (outcome: Result<(), VulkanDistributedPlanError>)
    ensures
        match outcome {
            Ok(_) => with_handoff(
                old(found).deep_view(),
                producer.deep_view(),
                consumer.deep_view(),
            ) == Ok::<PrivateHandoffsModel, Seq<char>>(final(found).deep_view()),
            Err(error) => with_handoff(
                old(found).deep_view(),
                producer.deep_view(),
                consumer.deep_view(),
            ) == Err::<PrivateHandoffsModel, Seq<char>>(error.0@),
        },
{
    if !dense_local_shard_handoff(producer, consumer) {
        return Ok(());
    }
    if !found.producers.insert(producer.dispatch_index) || !found.consumers.insert(
        consumer.dispatch_index,
    ) {
        return Err(
            VulkanDistributedPlanError(
                "distributed private intermediate dispatch is not one-to-one".to_owned(),
            ),
        );
    }
    if !are_distinct(&list_shard_device_ids(&producer.shards)) {
        return Err(
            VulkanDistributedPlanError(
                join5(
                    "private intermediate ",
                    producer.node_id.as_str(),
                    " -> ",
                    consumer.node_id.as_str(),
                    " repeats a participant device",
                ),
            ),
        );
    }
    append(
        &mut found.allocations,
        VulkanDistributedPrivateIntermediateBufferAllocation {
            producer_dispatch_index: producer.dispatch_index,
            consumer_dispatch_index: consumer.dispatch_index,
            component_id: producer.component_id.clone(),
            signal_id: producer.output_activation.signal_id.clone(),
            devices: list_handed_off(&producer.shards),
        },
    );
    Ok(())
}

fn add_island_handoffs(
    found: &mut PrivateHandoffs,
    dispatches: &Vec<VulkanDistributedDispatchPlan>,
) -> (outcome: Result<(), VulkanDistributedPlanError>)
    ensures
        match outcome {
            Ok(_) => handoffs_from(dispatches.deep_view(), 1, old(found).deep_view()) == Ok::<
                PrivateHandoffsModel,
                Seq<char>,
            >(final(found).deep_view()),
            Err(error) => handoffs_from(dispatches.deep_view(), 1, old(found).deep_view()) == Err::<
                PrivateHandoffsModel,
                Seq<char>,
            >(error.0@),
        },
{
    let ghost all = dispatches.deep_view();
    let ghost before = found.deep_view();
    let mut index: usize = 1;
    while index < dispatches.len()
        invariant
            1 <= index,
            all == dispatches.deep_view(),
            before == old(found).deep_view(),
            handoffs_from(all, 1, before) == handoffs_from(all, index as nat, found.deep_view()),
        decreases dispatches.len() - index,
    {
        assert(all[index as int] == dispatches@[index as int].deep_view());
        assert(all[index as int - 1] == dispatches@[index as int - 1].deep_view());
        match add_handoff(found, &dispatches[index - 1], &dispatches[index]) {
            Err(error) => {
                return Err(error);
            },
            Ok(_) => {},
        }
        index += 1;
    }
    Ok(())
}

/// The private handoffs of the islands, or the text of the error.
pub open spec fn private_handoffs(
    islands: Seq<VulkanPhysicalExecutionIslandPlanModel>,
) -> Result<PrivateHandoffsModel, Seq<char>> {
    fold_from(islands, 0, no_handoffs(), handoff_step())
}

fn find_private_handoffs(islands: &Vec<VulkanPhysicalExecutionIslandPlan>) -> (outcome: Result<
    PrivateHandoffs,
    VulkanDistributedPlanError,
>)
    ensures
        plan_agrees(outcome, private_handoffs(islands.deep_view())),
{
    let ghost all = islands.deep_view();
    let ghost step = handoff_step();
    let mut found = PrivateHandoffs {
        producers: OrderedSet::new(),
        consumers: OrderedSet::new(),
        allocations: Vec::new(),
    };
    assert(found.deep_view().allocations =~= Seq::empty());
    for index in 0..islands.len()
        invariant
            all == islands.deep_view(),
            step == handoff_step(),
            fold_from(all, 0, no_handoffs(), step) == fold_from(
                all,
                index as nat,
                found.deep_view(),
                step,
            ),
    {
        assert(all[index as int] == islands@[index as int].deep_view());
        match add_island_handoffs(&mut found, &islands[index].dispatches) {
            Err(error) => {
                return Err(error);
            },
            Ok(_) => {},
        }
    }
    Ok(found)
}

/// The name of a dispatch in messages.
pub open spec fn dispatch_name(dispatch: VulkanDistributedDispatchPlanModel) -> Seq<char> {
    dispatch.component_id + "."@ + dispatch.node_id
}

pub(crate) fn name_dispatch(dispatch: &VulkanDistributedDispatchPlan) -> (name: String)
    ensures
        name@ == dispatch_name(dispatch.deep_view()),
{
    crate::text::join3(dispatch.component_id.as_str(), ".", dispatch.node_id.as_str())
}

/// The activations that a dispatch reads from shared buffers.
pub open spec fn shared_inputs(
    dispatch: VulkanDistributedDispatchPlanModel,
    consumers: Set<usize>,
) -> Seq<VulkanDistributedActivationSlotModel> {
    (if consumers.contains(dispatch.dispatch_index) {
        Seq::empty()
    } else {
        seq![dispatch.input_activation]
    }) + dispatch.auxiliary_input_activations + dispatch.selected_resource_activations
}

/// Adds a read of an activation.
pub open spec fn read_step(owner_device_id: Seq<char>, participants: Set<Seq<char>>) -> spec_fn(
    Map<ActivationKeyModel, SharedActivationModel>,
    VulkanDistributedActivationSlotModel,
) -> Result<Map<ActivationKeyModel, SharedActivationModel>, Seq<char>> {
    |found: Map<ActivationKeyModel, SharedActivationModel>,
        activation: VulkanDistributedActivationSlotModel|
        used_activation(
            found,
            owner_device_id,
            activation,
            participants,
            VulkanDistributedActivationAccess::Input,
        )
}

/// The devices that write the output of a dispatch.
pub open spec fn output_devices(dispatch: VulkanDistributedDispatchPlanModel) -> Set<Seq<char>> {
    if dispatch.reduction is Some {
        Set::empty().insert(dispatch.owner_device_id)
    } else {
        shard_device_ids(dispatch.shards).to_set()
    }
}

/// Adds the shared activations of a dispatch.
pub open spec fn with_activations(
    shared: Map<ActivationKeyModel, SharedActivationModel>,
    dispatch: VulkanDistributedDispatchPlanModel,
    producers: Set<usize>,
    consumers: Set<usize>,
) -> Result<Map<ActivationKeyModel, SharedActivationModel>, Seq<char>> {
    let participants = shard_device_ids(dispatch.shards).to_set();
    match fold_from(
        shared_inputs(dispatch, consumers),
        0,
        shared,
        read_step(dispatch.owner_device_id, participants),
    ) {
        Err(message) => Err(message),
        Ok(read) => if producers.contains(dispatch.dispatch_index) {
            Ok(read)
        } else {
            used_activation(
                read,
                dispatch.owner_device_id,
                dispatch.output_activation,
                output_devices(dispatch),
                VulkanDistributedActivationAccess::Output,
            )
        },
    }
}

/// Why the devices of a dispatch cannot share its activations.
pub open spec fn participation_fault(
    dispatch: VulkanDistributedDispatchPlanModel,
    pool: Set<Seq<char>>,
) -> Option<Seq<char>> {
    let participants = shard_device_ids(dispatch.shards).to_set();
    let prefix = "distributed dispatch "@ + dispatch_name(dispatch);
    if dispatch.shards.len() == 0 {
        Some(prefix + " has no device shards"@)
    } else if !participants.contains(dispatch.owner_device_id) {
        Some(prefix + " does not include its owner "@ + debug_text(dispatch.owner_device_id))
    } else {
        match find_from(
            ordered_members::<String>(participants),
            0,
            |device_id: Seq<char>| !pool.contains(device_id),
        ) {
            Some(device_id) => Some(
                prefix + " uses device "@ + debug_text(device_id) + " outside the execution pool"@,
            ),
            None => None,
        }
    }
}

/// Adds the reduction of a dispatch, where it has one.
pub open spec fn with_reduction(
    found: ActivationUsesModel,
    dispatch: VulkanDistributedDispatchPlanModel,
) -> Result<ActivationUsesModel, Seq<char>> {
    let device_ids = shard_device_ids(dispatch.shards);
    let key = (dispatch.owner_device_id, dispatch.dispatch_index);
    match dispatch.reduction {
        None => Ok(found),
        Some(reduction) => if found.reduced.contains(key) {
            Err(
                "distributed reduction repeats dispatch "@ + decimal_text(
                    dispatch.dispatch_index as nat,
                ) + " owned by "@ + debug_text(dispatch.owner_device_id),
            )
        } else if !device_ids.no_duplicates() {
            Err(
                "distributed reduction "@ + dispatch_name(dispatch)
                    + " repeats a participant device"@,
            )
        } else if reduction.partial_byte_capacity * device_ids.len() > usize::MAX {
            Err(
                "distributed reduction "@ + dispatch_name(dispatch) + " byte capacity overflowed"@,
            )
        } else {
            Ok(
                ActivationUsesModel {
                    shared: found.shared,
                    reductions: found.reductions.push(
                        VulkanDistributedReductionBufferAllocationModel {
                            owner_device_id: dispatch.owner_device_id,
                            dispatch_index: dispatch.dispatch_index,
                            component_id: dispatch.component_id,
                            node_id: dispatch.node_id,
                            plane_byte_capacity: reduction.partial_byte_capacity,
                            byte_capacity: (reduction.partial_byte_capacity
                                * device_ids.len()) as usize,
                            device_ids,
                        },
                    ),
                    reduced: found.reduced.insert(key),
                },
            )
        },
    }
}

/// Adds what a dispatch shares among its devices.
pub open spec fn use_step(
    pool: Set<Seq<char>>,
    producers: Set<usize>,
    consumers: Set<usize>,
) -> spec_fn(ActivationUsesModel, VulkanDistributedDispatchPlanModel) -> Result<
    ActivationUsesModel,
    Seq<char>,
> {
    |found: ActivationUsesModel, dispatch: VulkanDistributedDispatchPlanModel|
        match participation_fault(dispatch, pool) {
            Some(message) => Err(message),
            None => match with_activations(found.shared, dispatch, producers, consumers) {
                Err(message) => Err(message),
                Ok(shared) => with_reduction(
                    ActivationUsesModel {
                        shared,
                        reductions: found.reductions,
                        reduced: found.reduced,
                    },
                    dispatch,
                ),
            },
        }
}

/// Nothing shared.
pub open spec fn no_uses() -> ActivationUsesModel {
    ActivationUsesModel { shared: Map::empty(), reductions: Seq::empty(), reduced: Set::empty() }
}

fn check_participation(
    dispatch: &VulkanDistributedDispatchPlan,
    participants: &OrderedSet<String>,
    pool: &OrderedSet<String>,
) -> (outcome: Result<(), VulkanDistributedPlanError>)
    requires
        participants.deep_view() == shard_device_ids(dispatch.shards.deep_view()).to_set(),
    ensures
        match outcome {
            Ok(_) => participation_fault(dispatch.deep_view(), pool.deep_view()) is None,
            Err(error) => participation_fault(dispatch.deep_view(), pool.deep_view()) == Some(
                error.0@,
            ),
        },
{
    if dispatch.shards.len() == 0 {
        return Err(
            VulkanDistributedPlanError(
                crate::text::join3(
                    "distributed dispatch ",
                    name_dispatch(dispatch).as_str(),
                    " has no device shards",
                ),
            ),
        );
    }
    if !participants.contains(&dispatch.owner_device_id) {
        return Err(
            VulkanDistributedPlanError(
                join4(
                    "distributed dispatch ",
                    name_dispatch(dispatch).as_str(),
                    " does not include its owner ",
                    quoted(dispatch.owner_device_id.as_str()).as_str(),
                ),
            ),
        );
    }
    let count: usize = participants.len();
    let ghost members = ordered_members::<String>(participants.deep_view());
    let ghost outside = |device_id: Seq<char>| !pool.deep_view().contains(device_id);
    for index in 0..count
        invariant
            count == members.len(),
            members == participants.listing(),
            outside == (|device_id: Seq<char>| !pool.deep_view().contains(device_id)),
            find_from(members, 0, outside) == find_from(members, index as nat, outside),
            members == ordered_members::<String>(
                shard_device_ids(dispatch.deep_view().shards).to_set(),
            ),
            shard_device_ids(dispatch.deep_view().shards).to_set().contains(
                dispatch.deep_view().owner_device_id,
            ),
            dispatch.deep_view().shards.len() != 0,
    {
        let device_id = participants.member_at(index);
        if !pool.contains(device_id) {
            return Err(
                VulkanDistributedPlanError(
                    join5(
                        "distributed dispatch ",
                        name_dispatch(dispatch).as_str(),
                        " uses device ",
                        quoted(device_id.as_str()).as_str(),
                        " outside the execution pool",
                    ),
                ),
            );
        }
    }
    Ok(())
}

fn list_shared_inputs(
    dispatch: &VulkanDistributedDispatchPlan,
    consumers: &OrderedSet<usize>,
) -> (inputs: Vec<VulkanDistributedActivationSlot>)
    ensures
        inputs.deep_view() == shared_inputs(dispatch.deep_view(), consumers.deep_view()),
{
    let mut inputs: Vec<VulkanDistributedActivationSlot> = Vec::new();
    assert(inputs.deep_view() =~= Seq::empty());
    if !consumers.contains(&dispatch.dispatch_index) {
        append(&mut inputs, dispatch.input_activation.duplicate());
    }
    append_all(&mut inputs, &dispatch.auxiliary_input_activations);
    append_all(&mut inputs, &dispatch.selected_resource_activations);
    assert(inputs.deep_view() =~= shared_inputs(dispatch.deep_view(), consumers.deep_view()));
    inputs
}

fn add_activations(
    shared: &mut OrderedMap<ActivationKey, SharedActivation>,
    dispatch: &VulkanDistributedDispatchPlan,
    participants: &OrderedSet<String>,
    handoffs: &PrivateHandoffs,
) -> (outcome: Result<(), VulkanDistributedPlanError>)
    requires
        participants.deep_view() == shard_device_ids(dispatch.shards.deep_view()).to_set(),
    ensures
        match outcome {
            Ok(_) => with_activations(
                old(shared).deep_view(),
                dispatch.deep_view(),
                handoffs.deep_view().producers,
                handoffs.deep_view().consumers,
            ) == Ok::<Map<ActivationKeyModel, SharedActivationModel>, Seq<char>>(
                final(shared).deep_view(),
            ),
            Err(error) => with_activations(
                old(shared).deep_view(),
                dispatch.deep_view(),
                handoffs.deep_view().producers,
                handoffs.deep_view().consumers,
            ) == Err::<Map<ActivationKeyModel, SharedActivationModel>, Seq<char>>(error.0@),
        },
{
    let inputs = list_shared_inputs(dispatch, &handoffs.consumers);
    let ghost all = inputs.deep_view();
    let ghost before = shared.deep_view();
    let ghost step = read_step(dispatch.owner_device_id@, participants.deep_view());
    for index in 0..inputs.len()
        invariant
            all == inputs.deep_view(),
            step == read_step(dispatch.owner_device_id@, participants.deep_view()),
            fold_from(all, 0, before, step) == fold_from(
                all,
                index as nat,
                shared.deep_view(),
                step,
            ),
            participants.deep_view() == shard_device_ids(dispatch.shards.deep_view()).to_set(),
            all == shared_inputs(dispatch.deep_view(), handoffs.deep_view().consumers),
            before == old(shared).deep_view(),
    {
        assert(all[index as int] == inputs@[index as int].deep_view());
        match accumulate_activation_allocation(
            shared,
            &dispatch.owner_device_id,
            &inputs[index],
            participants,
            VulkanDistributedActivationAccess::Input,
        ) {
            Err(error) => {
                return Err(error);
            },
            Ok(_) => {},
        }
    }
    if handoffs.producers.contains(&dispatch.dispatch_index) {
        return Ok(());
    }
    let mut writers: OrderedSet<String> = OrderedSet::new();
    if dispatch.reduction.is_some() {
        writers.insert(dispatch.owner_device_id.clone());
    } else {
        writers = participants.duplicate();
    }
    accumulate_activation_allocation(
        shared,
        &dispatch.owner_device_id,
        &dispatch.output_activation,
        &writers,
        VulkanDistributedActivationAccess::Output,
    )
}

fn add_reduction(found: &mut ActivationUses, dispatch: &VulkanDistributedDispatchPlan) -> (outcome:
    Result<(), VulkanDistributedPlanError>)
    ensures
        match outcome {
            Ok(_) => with_reduction(old(found).deep_view(), dispatch.deep_view()) == Ok::<
                ActivationUsesModel,
                Seq<char>,
            >(final(found).deep_view()),
            Err(error) => with_reduction(old(found).deep_view(), dispatch.deep_view()) == Err::<
                ActivationUsesModel,
                Seq<char>,
            >(error.0@),
        },
{
    match &dispatch.reduction {
        None => Ok(()),
        Some(reduction) => {
            if !found.reduced.insert((dispatch.owner_device_id.clone(), dispatch.dispatch_index)) {
                return Err(
                    VulkanDistributedPlanError(
                        join4(
                            "distributed reduction repeats dispatch ",
                            decimal(dispatch.dispatch_index).as_str(),
                            " owned by ",
                            quoted(dispatch.owner_device_id.as_str()).as_str(),
                        ),
                    ),
                );
            }
            let device_ids = list_shard_device_ids(&dispatch.shards);
            if !are_distinct(&device_ids) {
                return Err(
                    VulkanDistributedPlanError(
                        crate::text::join3(
                            "distributed reduction ",
                            name_dispatch(dispatch).as_str(),
                            " repeats a participant device",
                        ),
                    ),
                );
            }
            match reduction.partial_byte_capacity.checked_mul(device_ids.len()) {
                None => Err(
                    VulkanDistributedPlanError(
                        crate::text::join3(
                            "distributed reduction ",
                            name_dispatch(dispatch).as_str(),
                            " byte capacity overflowed",
                        ),
                    ),
                ),
                Some(byte_capacity) => {
                    append(
                        &mut found.reductions,
                        VulkanDistributedReductionBufferAllocation {
                            owner_device_id: dispatch.owner_device_id.clone(),
                            dispatch_index: dispatch.dispatch_index,
                            component_id: dispatch.component_id.clone(),
                            node_id: dispatch.node_id.clone(),
                            plane_byte_capacity: reduction.partial_byte_capacity,
                            byte_capacity,
                            device_ids,
                        },
                    );
                    Ok(())
                },
            }
        },
    }
}

/// What the devices of a plan share, or the text of the error.
pub open spec fn plan_uses(
    plan: VulkanDistributedExecutionPlanModel,
    handoffs: PrivateHandoffsModel,
) -> Result<ActivationUsesModel, Seq<char>> {
    fold_from(
        plan.dispatches,
        0,
        no_uses(),
        use_step(plan.device_ids.to_set(), handoffs.producers, handoffs.consumers),
    )
}

fn find_uses(plan: &VulkanDistributedExecutionPlan, handoffs: &PrivateHandoffs) -> (outcome: Result<
    ActivationUses,
    VulkanDistributedPlanError,
>)
    ensures
        plan_agrees(outcome, plan_uses(plan.deep_view(), handoffs.deep_view())),
{
    let pool = OrderedSet::from_values(&plan.device_ids);
    let ghost all = plan.deep_view().dispatches;
    let ghost private = handoffs.deep_view();
    let ghost step = use_step(pool.deep_view(), private.producers, private.consumers);
    let mut found = ActivationUses {
        shared: OrderedMap::new(),
        reductions: Vec::new(),
        reduced: OrderedSet::new(),
    };
    assert(found.deep_view().reductions =~= Seq::empty());
    for index in 0..plan.dispatches.len()
        invariant
            all == plan.dispatches.deep_view(),
            private == handoffs.deep_view(),
            step == use_step(pool.deep_view(), private.producers, private.consumers),
            fold_from(all, 0, no_uses(), step) == fold_from(
                all,
                index as nat,
                found.deep_view(),
                step,
            ),
            plan_uses(plan.deep_view(), private) == fold_from(all, 0, no_uses(), step),
    {
        let dispatch = &plan.dispatches[index];
        assert(all[index as int] == dispatch.deep_view());
        let participants = OrderedSet::from_values(&list_shard_device_ids(&dispatch.shards));
        match check_participation(dispatch, &participants, &pool) {
            Err(error) => {
                return Err(error);
            },
            Ok(_) => {},
        }
        match add_activations(&mut found.shared, dispatch, &participants, handoffs) {
            Err(error) => {
                return Err(error);
            },
            Ok(_) => {},
        }
        match add_reduction(&mut found, dispatch) {
            Err(error) => {
                return Err(error);
            },
            Ok(_) => {},
        }
    }
    Ok(found)
}

/// A shared activation with its signals and devices in increasing order.
pub open spec fn settled() -> spec_fn(SharedActivationModel) ->
    VulkanDistributedActivationBufferAllocationModel {
    |shared: SharedActivationModel|
        VulkanDistributedActivationBufferAllocationModel {
            storage: shared.storage,
            owner_device_id: shared.owner_device_id,
            component_id: shared.component_id,
            slot: shared.slot,
            byte_capacity: shared.byte_capacity,
            signal_ids: ordered_members::<String>(shared.signals),
            device_ids: ordered_members::<String>(shared.devices),
            input_use_count: shared.input_use_count,
            output_use_count: shared.output_use_count,
        }
}

/// The shared activations in the order of their keys.
pub open spec fn settled_activations(
    shared: Map<ActivationKeyModel, SharedActivationModel>,
) -> Seq<VulkanDistributedActivationBufferAllocationModel> {
    ordered_values::<ActivationKey, SharedActivationModel>(shared).map_values(settled())
}

pub(crate) fn settle(shared: &OrderedMap<ActivationKey, SharedActivation>) -> (allocations: Vec<
    VulkanDistributedActivationBufferAllocation,
>)
    ensures
        allocations.deep_view() == settled_activations(shared.deep_view()),
{
    let values = shared.to_values();
    let ghost expected = settled_activations(shared.deep_view());
    let mut allocations: Vec<VulkanDistributedActivationBufferAllocation> = Vec::new();
    assert(allocations.deep_view() =~= expected.take(0));
    for index in 0..values.len()
        invariant
            expected == values.deep_view().map_values(settled()),
            allocations.deep_view() == expected.take(index as int),
    {
        let value = &values[index];
        assert(values.deep_view()[index as int] == value.deep_view());
        append(
            &mut allocations,
            VulkanDistributedActivationBufferAllocation {
                storage: value.storage.duplicate(),
                owner_device_id: value.owner_device_id.clone(),
                component_id: value.component_id.clone(),
                slot: value.slot,
                byte_capacity: value.byte_capacity,
                signal_ids: value.signals.to_vec(),
                device_ids: value.devices.to_vec(),
                input_use_count: value.input_use_count,
                output_use_count: value.output_use_count,
            },
        );
        assert(expected.take(index as int + 1) =~= expected.take(index as int).push(
            expected[index as int],
        ));
    }
    assert(expected.take(expected.len() as int) =~= expected);
    allocations
}

/// The devices of a shared activation.
pub open spec fn sharing_devices() -> spec_fn(
    VulkanDistributedActivationBufferAllocationModel,
) -> nat {
    |allocation: VulkanDistributedActivationBufferAllocationModel| allocation.device_ids.len()
}

/// The uses of a shared activation.
pub open spec fn sharing_uses() -> spec_fn(
    VulkanDistributedActivationBufferAllocationModel,
) -> nat {
    |allocation: VulkanDistributedActivationBufferAllocationModel|
        (allocation.input_use_count + allocation.output_use_count) as nat
}

/// The bytes of a shared activation.
pub open spec fn sharing_bytes() -> spec_fn(
    VulkanDistributedActivationBufferAllocationModel,
) -> nat {
    |allocation: VulkanDistributedActivationBufferAllocationModel| allocation.byte_capacity as nat
}

/// The devices of a reduction.
pub open spec fn reducing_devices() -> spec_fn(
    VulkanDistributedReductionBufferAllocationModel,
) -> nat {
    |allocation: VulkanDistributedReductionBufferAllocationModel| allocation.device_ids.len()
}

/// The uses of a reduction: each device writes, and the owner reads.
pub open spec fn reducing_uses() -> spec_fn(
    VulkanDistributedReductionBufferAllocationModel,
) -> nat {
    |allocation: VulkanDistributedReductionBufferAllocationModel| allocation.device_ids.len() + 1
}

/// The bytes of a reduction.
pub open spec fn reducing_bytes() -> spec_fn(
    VulkanDistributedReductionBufferAllocationModel,
) -> nat {
    |allocation: VulkanDistributedReductionBufferAllocationModel| allocation.byte_capacity as nat
}

/// The devices of a private intermediate.
pub open spec fn private_devices() -> spec_fn(
    VulkanDistributedPrivateIntermediateBufferAllocationModel,
) -> nat {
    |allocation: VulkanDistributedPrivateIntermediateBufferAllocationModel|
        allocation.devices.len()
}

/// The bytes of a private intermediate on a device.
pub open spec fn device_bytes() -> spec_fn(
    VulkanDistributedPrivateIntermediateDeviceAllocationModel,
) -> nat {
    |device: VulkanDistributedPrivateIntermediateDeviceAllocationModel| device.byte_capacity as nat
}

/// The bytes of a private intermediate.
pub open spec fn private_bytes() -> spec_fn(
    VulkanDistributedPrivateIntermediateBufferAllocationModel,
) -> nat {
    |allocation: VulkanDistributedPrivateIntermediateBufferAllocationModel|
        sum_of(allocation.devices, device_bytes())
}

/// The sums over the buffers of a plan.
pub struct BufferSums {
    pub sharing_devices: Option<usize>,
    pub sharing_uses: Option<usize>,
    pub sharing_bytes: Option<usize>,
    pub reducing_devices: Option<usize>,
    pub reducing_uses: Option<usize>,
    pub reducing_bytes: Option<usize>,
    pub private_devices: Option<usize>,
    pub private_bytes: Option<usize>,
}

impl BufferSums {
    /// Each sum is exact where it fits.
    pub open spec fn are_exact(
        self,
        allocations: Seq<VulkanDistributedActivationBufferAllocationModel>,
        reductions: Seq<VulkanDistributedReductionBufferAllocationModel>,
        privates: Seq<VulkanDistributedPrivateIntermediateBufferAllocationModel>,
    ) -> bool {
        &&& is_checked(self.sharing_devices, sum_of(allocations, sharing_devices()))
        &&& is_checked(self.sharing_uses, sum_of(allocations, sharing_uses()))
        &&& is_checked(self.sharing_bytes, sum_of(allocations, sharing_bytes()))
        &&& is_checked(self.reducing_devices, sum_of(reductions, reducing_devices()))
        &&& is_checked(self.reducing_uses, sum_of(reductions, reducing_uses()))
        &&& is_checked(self.reducing_bytes, sum_of(reductions, reducing_bytes()))
        &&& is_checked(self.private_devices, sum_of(privates, private_devices()))
        &&& is_checked(self.private_bytes, sum_of(privates, private_bytes()))
    }
}

fn count_devices(allocation: &VulkanDistributedActivationBufferAllocation) -> (count: Option<usize>)
    ensures
        is_checked(count, sharing_devices()(allocation.deep_view())),
{
    Some(allocation.device_ids.len())
}

fn count_uses(allocation: &VulkanDistributedActivationBufferAllocation) -> (count: Option<usize>)
    ensures
        is_checked(count, sharing_uses()(allocation.deep_view())),
{
    allocation.input_use_count.checked_add(allocation.output_use_count)
}

fn count_bytes(allocation: &VulkanDistributedActivationBufferAllocation) -> (count: Option<usize>)
    ensures
        is_checked(count, sharing_bytes()(allocation.deep_view())),
{
    Some(allocation.byte_capacity)
}

fn count_reduction_devices(
    allocation: &VulkanDistributedReductionBufferAllocation,
) -> (count: Option<usize>)
    ensures
        is_checked(count, reducing_devices()(allocation.deep_view())),
{
    Some(allocation.device_ids.len())
}

fn count_reduction_uses(
    allocation: &VulkanDistributedReductionBufferAllocation,
) -> (count: Option<usize>)
    ensures
        is_checked(count, reducing_uses()(allocation.deep_view())),
{
    allocation.device_ids.len().checked_add(1)
}

fn count_reduction_bytes(
    allocation: &VulkanDistributedReductionBufferAllocation,
) -> (count: Option<usize>)
    ensures
        is_checked(count, reducing_bytes()(allocation.deep_view())),
{
    Some(allocation.byte_capacity)
}

fn count_device_bytes(
    allocation: &VulkanDistributedPrivateIntermediateDeviceAllocation,
) -> (count: Option<usize>)
    ensures
        is_checked(count, device_bytes()(allocation.deep_view())),
{
    Some(allocation.byte_capacity)
}

fn count_private_devices(
    allocation: &VulkanDistributedPrivateIntermediateBufferAllocation,
) -> (count: Option<usize>)
    ensures
        is_checked(count, private_devices()(allocation.deep_view())),
{
    Some(allocation.devices.len())
}

fn count_private_bytes(
    allocation: &VulkanDistributedPrivateIntermediateBufferAllocation,
) -> (count: Option<usize>)
    ensures
        is_checked(count, private_bytes()(allocation.deep_view())),
{
    checked_sum(&allocation.devices, count_device_bytes, Ghost(device_bytes()))
}

pub(crate) fn sum_buffers(
    allocations: &Vec<VulkanDistributedActivationBufferAllocation>,
    reductions: &Vec<VulkanDistributedReductionBufferAllocation>,
    privates: &Vec<VulkanDistributedPrivateIntermediateBufferAllocation>,
) -> (sums: BufferSums)
    ensures
        sums.are_exact(allocations.deep_view(), reductions.deep_view(), privates.deep_view()),
{
    BufferSums {
        sharing_devices: checked_sum(allocations, count_devices, Ghost(sharing_devices())),
        sharing_uses: checked_sum(allocations, count_uses, Ghost(sharing_uses())),
        sharing_bytes: checked_sum(allocations, count_bytes, Ghost(sharing_bytes())),
        reducing_devices: checked_sum(
            reductions,
            count_reduction_devices,
            Ghost(reducing_devices()),
        ),
        reducing_uses: checked_sum(reductions, count_reduction_uses, Ghost(reducing_uses())),
        reducing_bytes: checked_sum(reductions, count_reduction_bytes, Ghost(reducing_bytes())),
        private_devices: checked_sum(privates, count_private_devices, Ghost(private_devices())),
        private_bytes: checked_sum(privates, count_private_bytes, Ghost(private_bytes())),
    }
}

/// The plan of buffers with its totals, or the text of the error.
pub open spec fn totalled_buffers(
    allocations: Seq<VulkanDistributedActivationBufferAllocationModel>,
    reductions: Seq<VulkanDistributedReductionBufferAllocationModel>,
    privates: Seq<VulkanDistributedPrivateIntermediateBufferAllocationModel>,
    route: VulkanSharedResidentBufferRoute,
) -> Result<VulkanDistributedActivationBufferPlanModel, Seq<char>> {
    let imports = sum_of(allocations, sharing_devices());
    let reduction_imports = sum_of(reductions, reducing_devices());
    let uses = sum_of(allocations, sharing_uses());
    let reduction_uses = sum_of(reductions, reducing_uses());
    let bytes = sum_of(allocations, sharing_bytes());
    let reduction_bytes = sum_of(reductions, reducing_bytes());
    let devices = sum_of(privates, private_devices());
    if imports > usize::MAX {
        Err("distributed activation import count overflowed"@)
    } else if reduction_imports > usize::MAX {
        Err("distributed reduction import count overflowed"@)
    } else if imports + reduction_imports > usize::MAX {
        Err("distributed buffer import count overflowed"@)
    } else if uses > usize::MAX {
        Err("distributed activation reference count overflowed"@)
    } else if reduction_uses > usize::MAX {
        Err("distributed reduction reference count overflowed"@)
    } else if uses + reduction_uses + 2 * devices > usize::MAX {
        Err("distributed buffer reference count overflowed"@)
    } else if bytes > usize::MAX {
        Err("distributed activation byte capacity overflowed"@)
    } else if reduction_bytes > usize::MAX {
        Err("distributed reduction byte capacity overflowed"@)
    } else if bytes + reduction_bytes > usize::MAX {
        Err("distributed buffer byte capacity overflowed"@)
    } else if sum_of(privates, private_bytes()) > usize::MAX {
        Err("distributed private intermediate byte capacity overflowed"@)
    } else if allocations.len() + reductions.len() + devices > usize::MAX {
        Err("distributed buffer allocation count overflowed"@)
    } else {
        Ok(
            VulkanDistributedActivationBufferPlanModel {
                allocations,
                reduction_allocations: reductions,
                private_intermediate_allocations: privates,
                allocation_count: (allocations.len() + reductions.len() + devices) as usize,
                import_count: (imports + reduction_imports) as usize,
                reference_count: (uses + reduction_uses + 2 * devices) as usize,
                total_shared_byte_capacity: (bytes + reduction_bytes) as usize,
                total_private_byte_capacity: sum_of(privates, private_bytes()) as usize,
                route,
            },
        )
    }
}

fn checked_pair(left: usize, right: usize) -> (sum: Option<usize>)
    ensures
        is_checked(sum, (left + right) as nat),
{
    left.checked_add(right)
}

/// The first number, the second and twice the third, where the sum fits.
pub(crate) fn checked_references(
    left: usize,
    right: usize,
    devices: Option<usize>,
    Ghost(exact): Ghost<nat>,
) -> (sum:
    Option<usize>)
    requires
        is_checked(devices, exact),
    ensures
        is_checked(sum, left as nat + right as nat + 2 * exact),
{
    let count: usize = devices?;
    let references: usize = count.checked_mul(2)?;
    left.checked_add(right)?.checked_add(references)
}

/// The first number, the second and the third, where the sum fits.
pub(crate) fn checked_count(
    left: usize,
    right: usize,
    devices: Option<usize>,
    Ghost(exact): Ghost<nat>,
) -> (sum:
    Option<usize>)
    requires
        is_checked(devices, exact),
    ensures
        is_checked(sum, left as nat + right as nat + exact),
{
    let count: usize = devices?;
    left.checked_add(right)?.checked_add(count)
}

pub(crate) fn refused<T>(message: &str) -> (outcome: Result<T, VulkanDistributedPlanError>)
    ensures
        outcome is Err,
        outcome->Err_0.0@ == message@,
{
    Err(VulkanDistributedPlanError(message.to_owned()))
}

fn total_buffers(
    allocations: Vec<VulkanDistributedActivationBufferAllocation>,
    reductions: Vec<VulkanDistributedReductionBufferAllocation>,
    privates: Vec<VulkanDistributedPrivateIntermediateBufferAllocation>,
    route: VulkanSharedResidentBufferRoute,
) -> (outcome: Result<VulkanDistributedActivationBufferPlan, VulkanDistributedPlanError>)
    ensures
        plan_agrees(
            outcome,
            totalled_buffers(
                allocations.deep_view(),
                reductions.deep_view(),
                privates.deep_view(),
                route,
            ),
        ),
{
    let sums = sum_buffers(&allocations, &reductions, &privates);
    let ghost devices = sum_of(privates.deep_view(), private_devices());
    let imports: usize = match sums.sharing_devices {
        None => return refused("distributed activation import count overflowed"),
        Some(count) => count,
    };
    let reduction_imports: usize = match sums.reducing_devices {
        None => return refused("distributed reduction import count overflowed"),
        Some(count) => count,
    };
    let import_count: usize = match checked_pair(imports, reduction_imports) {
        None => return refused("distributed buffer import count overflowed"),
        Some(count) => count,
    };
    let uses: usize = match sums.sharing_uses {
        None => return refused("distributed activation reference count overflowed"),
        Some(count) => count,
    };
    let reduction_uses: usize = match sums.reducing_uses {
        None => return refused("distributed reduction reference count overflowed"),
        Some(count) => count,
    };
    let reference_count: usize = match checked_references(
        uses,
        reduction_uses,
        sums.private_devices,
        Ghost(devices),
    ) {
        None => return refused("distributed buffer reference count overflowed"),
        Some(count) => count,
    };
    let bytes: usize = match sums.sharing_bytes {
        None => return refused("distributed activation byte capacity overflowed"),
        Some(count) => count,
    };
    let reduction_bytes: usize = match sums.reducing_bytes {
        None => return refused("distributed reduction byte capacity overflowed"),
        Some(count) => count,
    };
    let total_shared_byte_capacity: usize = match checked_pair(bytes, reduction_bytes) {
        None => return refused("distributed buffer byte capacity overflowed"),
        Some(count) => count,
    };
    let total_private_byte_capacity: usize = match sums.private_bytes {
        None => return refused("distributed private intermediate byte capacity overflowed"),
        Some(count) => count,
    };
    let allocation_count: usize = match checked_count(
        allocations.len(),
        reductions.len(),
        sums.private_devices,
        Ghost(devices),
    ) {
        None => return refused("distributed buffer allocation count overflowed"),
        Some(count) => count,
    };
    Ok(
        VulkanDistributedActivationBufferPlan {
            allocations,
            reduction_allocations: reductions,
            private_intermediate_allocations: privates,
            allocation_count,
            import_count,
            reference_count,
            total_shared_byte_capacity,
            total_private_byte_capacity,
            route,
        },
    )
}

/// The activation buffers of a plan, or the text of the error.
pub open spec fn plan_buffers(plan: VulkanDistributedExecutionPlanModel) -> Result<
    VulkanDistributedActivationBufferPlanModel,
    Seq<char>,
> {
    match private_handoffs(plan.execution_islands) {
        Err(message) => Err(message),
        Ok(handoffs) => match plan_uses(plan, handoffs) {
            Err(message) => Err(message),
            Ok(uses) => totalled_buffers(
                settled_activations(uses.shared),
                uses.reductions,
                handoffs.allocations,
                plan.shared_activation_route,
            ),
        },
    }
}

impl VulkanDistributedActivationBufferPlan {
    /// The activation buffers that a plan needs.
    pub fn from_execution_plan(execution_plan: &VulkanDistributedExecutionPlan) -> (outcome: Result<
        Self,
        VulkanDistributedPlanError,
    >)
        ensures
            plan_agrees(outcome, plan_buffers(execution_plan.deep_view())),
    {
        let handoffs = match find_private_handoffs(&execution_plan.execution_islands) {
            Err(error) => {
                return Err(error);
            },
            Ok(handoffs) => handoffs,
        };
        let uses = match find_uses(execution_plan, &handoffs) {
            Err(error) => {
                return Err(error);
            },
            Ok(uses) => uses,
        };
        total_buffers(
            settle(&uses.shared),
            uses.reductions,
            handoffs.allocations,
            execution_plan.shared_activation_route,
        )
    }
}

} // verus!
