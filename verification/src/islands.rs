//! Physical execution islands: dispatches that execute as one recorded sequence.
use vstd::prelude::*;

use crate::arithmetic::{narrow, narrowed};
use crate::contracts::{InputDistribution, LocalIntermediateContractModel, OutputCollection};
use crate::dispatch_shards::{
    VulkanDistributedDispatchShard, VulkanDistributedDispatchShardModel,
    VulkanDistributedParameterFragment, VulkanDistributedParameterFragmentModel,
};
use crate::errors::{plan_agrees, VulkanDistributedPlanError};
use crate::execution_plans::{
    VulkanDistributedActivationSlot, VulkanDistributedActivationSlotModel,
    VulkanDistributedActivationStorage, VulkanDistributedActivationStorageModel,
    VulkanDistributedDispatchDistribution, VulkanDistributedDispatchPlan,
    VulkanDistributedDispatchPlanModel, VulkanPhysicalExecutionParticipant,
    VulkanPhysicalExecutionParticipantModel, VulkanPhysicalExecutionParticipantRole,
    VulkanPhysicalExecutionResidencyKind, VulkanPhysicalExecutionResidencyRequirement,
    VulkanPhysicalExecutionResidencyRequirementModel, VulkanPhysicalExecutionScheduleKind,
    VulkanPhysicalExecutionScheduleStep, VulkanPhysicalExecutionScheduleStepModel,
    VulkanPhysicalExecutionShardAssignment, VulkanPhysicalExecutionShardAssignmentModel,
    VulkanPhysicalExecutionSynchronizationKind, VulkanPhysicalExecutionSynchronizationRoute,
    VulkanPhysicalExecutionSynchronizationRouteModel, VulkanPhysicalExecutionTransportKind,
    VulkanPhysicalExecutionTransportRoute, VulkanPhysicalExecutionTransportRouteModel,
    VulkanSharedResidentBufferRoute,
};
use crate::ordered::{ordered_listing, ordered_members, OrderedMap, OrderedSet};
use crate::sequences::{
    append, distinct, fold_from, holds, lemma_sum_prefix, lemma_sum_step, push_distinct, sum_of,
};
use crate::text::{debug_text, decimal, decimal_text, join6, join8, quoted};
use crate::values::PlainValue;

verus! {

/// Two activations are one: all but their bindings agree.
pub open spec fn same_activation(
    left: VulkanDistributedActivationSlotModel,
    right: VulkanDistributedActivationSlotModel,
) -> bool {
    &&& left.component_id == right.component_id
    &&& left.signal_id == right.signal_id
    &&& left.slot == right.slot
    &&& left.byte_capacity == right.byte_capacity
    &&& left.signal_byte_capacity == right.signal_byte_capacity
    &&& left.storage == right.storage
}

pub fn same_distributed_activation(
    left: &VulkanDistributedActivationSlot,
    right: &VulkanDistributedActivationSlot,
) -> (result: bool)
    ensures
        result == same_activation(left.deep_view(), right.deep_view()),
{
    left.component_id == right.component_id && left.signal_id == right.signal_id && left.slot
        == right.slot && left.byte_capacity == right.byte_capacity && left.signal_byte_capacity
        == right.signal_byte_capacity && left.storage.same(&right.storage)
}

/// The shard of a consumer reads on its device exactly what the shard of the
/// producer writes there.
pub open spec fn shard_hands_off(
    producer: VulkanDistributedDispatchShardModel,
    consumer: VulkanDistributedDispatchShardModel,
) -> bool {
    &&& producer.device_id == consumer.device_id
    &&& producer.row_start == consumer.row_start
    &&& producer.row_count == consumer.row_count
    &&& producer.output_byte_offset == consumer.input_range.byte_offset
    &&& producer.output_byte_count == consumer.input_range.byte_count
}

/// Both dispatches declare the signal between them as one that stays local.
pub open spec fn local_between(
    producer: VulkanDistributedDispatchPlanModel,
    consumer: VulkanDistributedDispatchPlanModel,
    intermediate: LocalIntermediateContractModel,
) -> bool {
    &&& intermediate.signal == producer.output_activation.signal_id
    &&& narrowed(intermediate.producer_binding) == Some(producer.output_activation.binding)
    &&& narrowed(intermediate.consumer_binding) == Some(consumer.input_activation.binding)
    &&& consumer.local_intermediates.contains(intermediate)
}

/// One dispatch follows directly on another of the same owner and component, and
/// reads what the other writes, on as many shards.
pub open spec fn follows(
    producer: VulkanDistributedDispatchPlanModel,
    consumer: VulkanDistributedDispatchPlanModel,
) -> bool {
    &&& producer.owner_device_id == consumer.owner_device_id
    &&& producer.component_id == consumer.component_id
    &&& producer.dispatch_index + 1 == consumer.dispatch_index
    &&& same_activation(producer.output_activation, consumer.input_activation)
    &&& producer.shards.len() == consumer.shards.len()
}

/// Every shard of a consumer reads privately what the same device produced.
pub open spec fn hands_off_locally(
    producer: VulkanDistributedDispatchPlanModel,
    consumer: VulkanDistributedDispatchPlanModel,
) -> bool {
    &&& follows(producer, consumer)
    &&& producer.shards.len() > 0
    &&& producer.distribution is OutputRows
    &&& producer.output_collection is Concatenated
    &&& consumer.distribution is InputColumns
    &&& consumer.input_distribution is Sharded
    &&& forall|i: int|
        0 <= i < producer.shards.len() ==> shard_hands_off(
            #[trigger] producer.shards[i],
            consumer.shards[i],
        )
    &&& exists|i: int|
        0 <= i < producer.local_intermediates.len() && local_between(
            producer,
            consumer,
            #[trigger] producer.local_intermediates[i],
        )
}

fn directly_follows(
    producer: &VulkanDistributedDispatchPlan,
    consumer: &VulkanDistributedDispatchPlan,
) -> (result: bool)
    ensures
        result == follows(producer.deep_view(), consumer.deep_view()),
{
    producer.owner_device_id == consumer.owner_device_id && producer.component_id
        == consumer.component_id && match producer.dispatch_index.checked_add(1) {
        Some(next) => next == consumer.dispatch_index,
        None => false,
    } && same_distributed_activation(&producer.output_activation, &consumer.input_activation)
        && producer.shards.len() == consumer.shards.len()
}

pub fn dense_local_shard_handoff(
    producer: &VulkanDistributedDispatchPlan,
    consumer: &VulkanDistributedDispatchPlan,
) -> (result: bool)
    ensures
        result == hands_off_locally(producer.deep_view(), consumer.deep_view()),
{
    let ghost from = producer.deep_view();
    let ghost to = consumer.deep_view();
    if !directly_follows(producer, consumer) || producer.shards.len() == 0 || producer.distribution
        != VulkanDistributedDispatchDistribution::OutputRows || producer.output_collection
        != OutputCollection::Concatenated || consumer.distribution
        != VulkanDistributedDispatchDistribution::InputColumns || consumer.input_distribution
        != InputDistribution::Sharded {
        return false;
    }
    for index in 0..producer.shards.len()
        invariant
            from == producer.deep_view(),
            to == consumer.deep_view(),
            producer.shards.len() == consumer.shards.len(),
            forall|i: int|
                0 <= i < index ==> shard_hands_off(#[trigger] from.shards[i], to.shards[i]),
    {
        let producer_shard = &producer.shards[index];
        let consumer_shard = &consumer.shards[index];
        assert(from.shards[index as int] == producer_shard.deep_view());
        assert(to.shards[index as int] == consumer_shard.deep_view());
        if !(producer_shard.device_id == consumer_shard.device_id && producer_shard.row_start
            == consumer_shard.row_start && producer_shard.row_count == consumer_shard.row_count
            && producer_shard.output_byte_offset == consumer_shard.input_range.byte_offset
            && producer_shard.output_byte_count == consumer_shard.input_range.byte_count) {
            return false;
        }
    }
    for index in 0..producer.local_intermediates.len()
        invariant
            from == producer.deep_view(),
            to == consumer.deep_view(),
            follows(from, to),
            from.shards.len() > 0,
            from.distribution is OutputRows,
            from.output_collection is Concatenated,
            to.distribution is InputColumns,
            to.input_distribution is Sharded,
            forall|i: int|
                0 <= i < from.shards.len() ==> shard_hands_off(
                    #[trigger] from.shards[i],
                    to.shards[i],
                ),
            forall|i: int|
                0 <= i < index ==> !local_between(
                    from,
                    to,
                    #[trigger] from.local_intermediates[i],
                ),
    {
        let intermediate = &producer.local_intermediates[index];
        assert(from.local_intermediates[index as int] == intermediate.deep_view());
        let bound_to_producer: bool = match narrow(intermediate.producer_binding) {
            Some(binding) => binding == producer.output_activation.binding,
            None => false,
        };
        let bound_to_consumer: bool = match narrow(intermediate.consumer_binding) {
            Some(binding) => binding == consumer.input_activation.binding,
            None => false,
        };
        if intermediate.signal == producer.output_activation.signal_id && bound_to_producer
            && bound_to_consumer && holds(&consumer.local_intermediates, intermediate) {
            return true;
        }
    }
    false
}

/// Two shards execute the same rows on the same device.
pub open spec fn same_rows(
    left: VulkanDistributedDispatchShardModel,
    right: VulkanDistributedDispatchShardModel,
) -> bool {
    left.device_id == right.device_id && left.row_start == right.row_start && left.row_count
        == right.row_count
}

/// Two dispatches can execute in one recorded sequence: one follows the other on
/// the same rows, and either both execute the same experts or the first hands its
/// output to the second locally.
pub open spec fn shares_sequence(
    producer: VulkanDistributedDispatchPlanModel,
    consumer: VulkanDistributedDispatchPlanModel,
) -> bool {
    &&& follows(producer, consumer)
    &&& forall|i: int|
        0 <= i < producer.shards.len() ==> same_rows(
            #[trigger] producer.shards[i],
            consumer.shards[i],
        )
    &&& if producer.distribution is ExpertRange && consumer.distribution is ExpertRange {
        forall|i: int|
            0 <= i < producer.shards.len() ==> (
            #[trigger] producer.shards[i]).base_workgroup_z
                == consumer.shards[i].base_workgroup_z
    } else {
        hands_off_locally(producer, consumer)
    }
}

pub fn distributed_dispatches_can_share_sequence(
    producer: &VulkanDistributedDispatchPlan,
    consumer: &VulkanDistributedDispatchPlan,
) -> (result: bool)
    ensures
        result == shares_sequence(producer.deep_view(), consumer.deep_view()),
{
    let ghost from = producer.deep_view();
    let ghost to = consumer.deep_view();
    if !directly_follows(producer, consumer) {
        return false;
    }
    for index in 0..producer.shards.len()
        invariant
            from == producer.deep_view(),
            to == consumer.deep_view(),
            producer.shards.len() == consumer.shards.len(),
            forall|i: int|
                0 <= i < index ==> same_rows(#[trigger] from.shards[i], to.shards[i]),
    {
        assert(from.shards[index as int] == producer.shards@[index as int].deep_view());
        assert(to.shards[index as int] == consumer.shards@[index as int].deep_view());
        if producer.shards[index].device_id != consumer.shards[index].device_id
            || producer.shards[index].row_start != consumer.shards[index].row_start
            || producer.shards[index].row_count != consumer.shards[index].row_count {
            return false;
        }
    }
    if producer.distribution != VulkanDistributedDispatchDistribution::ExpertRange
        || consumer.distribution != VulkanDistributedDispatchDistribution::ExpertRange {
        return dense_local_shard_handoff(producer, consumer);
    }
    for index in 0..producer.shards.len()
        invariant
            from == producer.deep_view(),
            to == consumer.deep_view(),
            producer.shards.len() == consumer.shards.len(),
            from.distribution is ExpertRange && to.distribution is ExpertRange,
            forall|i: int|
                0 <= i < index ==> (#[trigger] from.shards[i]).base_workgroup_z
                    == to.shards[i].base_workgroup_z,
    {
        assert(from.shards[index as int] == producer.shards@[index as int].deep_view());
        assert(to.shards[index as int] == consumer.shards@[index as int].deep_view());
        if producer.shards[index].base_workgroup_z != consumer.shards[index].base_workgroup_z {
            return false;
        }
    }
    true
}

/// The device on which an activation is allocated.
pub open spec fn activation_owner(
    owner_device_id: Seq<char>,
    activation: VulkanDistributedActivationSlotModel,
) -> Seq<char> {
    match activation.storage {
        VulkanDistributedActivationStorageModel::Edge {
            edge_index: _,
            owner_device_id: edge_owner,
        } =>
            edge_owner,
        _ => owner_device_id,
    }
}

pub fn distributed_activation_owner_device_id(
    default_owner_device_id: &String,
    activation: &VulkanDistributedActivationSlot,
) -> (device_id: String)
    ensures
        device_id@ == activation_owner(default_owner_device_id@, activation.deep_view()),
{
    match &activation.storage {
        VulkanDistributedActivationStorage::Edge { edge_index: _, owner_device_id } =>
            owner_device_id.clone(),
        _ => default_owner_device_id.clone(),
    }
}

/// The transport of a route.
pub open spec fn route_transport(
    route: VulkanSharedResidentBufferRoute,
) -> VulkanPhysicalExecutionTransportKind {
    match route {
        VulkanSharedResidentBufferRoute::ExternalDeviceLocal =>
            VulkanPhysicalExecutionTransportKind::ExternalDeviceLocal,
        VulkanSharedResidentBufferRoute::SharedHost =>
            VulkanPhysicalExecutionTransportKind::SharedHost,
    }
}

pub fn physical_execution_transport_kind(route: VulkanSharedResidentBufferRoute) -> (kind:
    VulkanPhysicalExecutionTransportKind)
    ensures
        kind == route_transport(route),
{
    match route {
        VulkanSharedResidentBufferRoute::ExternalDeviceLocal =>
            VulkanPhysicalExecutionTransportKind::ExternalDeviceLocal,
        VulkanSharedResidentBufferRoute::SharedHost =>
            VulkanPhysicalExecutionTransportKind::SharedHost,
    }
}

/// The dispatches that hand their output to the next one locally.
pub open spec fn private_producers(
    dispatches: Seq<VulkanDistributedDispatchPlanModel>,
) -> Set<usize>
    decreases dispatches.len(),
{
    if dispatches.len() < 2 {
        Set::empty()
    } else {
        let producer = dispatches[dispatches.len() - 2];
        let found = private_producers(dispatches.drop_last());
        if hands_off_locally(producer, dispatches.last()) {
            found.insert(producer.dispatch_index)
        } else {
            found
        }
    }
}

/// The dispatches that take their input from the one before them locally.
pub open spec fn private_consumers(
    dispatches: Seq<VulkanDistributedDispatchPlanModel>,
) -> Set<usize>
    decreases dispatches.len(),
{
    if dispatches.len() < 2 {
        Set::empty()
    } else {
        let producer = dispatches[dispatches.len() - 2];
        let found = private_consumers(dispatches.drop_last());
        if hands_off_locally(producer, dispatches.last()) {
            found.insert(dispatches.last().dispatch_index)
        } else {
            found
        }
    }
}

fn list_private_handoffs(dispatches: &Vec<VulkanDistributedDispatchPlan>) -> (found: (
    OrderedSet<usize>,
    OrderedSet<usize>,
))
    ensures
        found.0.deep_view() == private_producers(dispatches.deep_view()),
        found.1.deep_view() == private_consumers(dispatches.deep_view()),
{
    let ghost all = dispatches.deep_view();
    let mut producers: OrderedSet<usize> = OrderedSet::new();
    let mut consumers: OrderedSet<usize> = OrderedSet::new();
    if dispatches.len() > 0 {
        for index in 1..dispatches.len()
            invariant
                dispatches.len() > 0,
                all == dispatches.deep_view(),
                producers.deep_view() == private_producers(all.take(index as int)),
                consumers.deep_view() == private_consumers(all.take(index as int)),
        {
            assert(all.take(index as int + 1).drop_last() =~= all.take(index as int));
            assert(all[index as int] == dispatches@[index as int].deep_view());
            assert(all[index as int - 1] == dispatches@[index as int - 1].deep_view());
            if dense_local_shard_handoff(&dispatches[index - 1], &dispatches[index]) {
                producers.insert(dispatches[index - 1].dispatch_index);
                consumers.insert(dispatches[index].dispatch_index);
            }
        }
        assert(all.take(all.len() as int) =~= all);
    }
    (producers, consumers)
}

/// What an island keeps on its devices: resources of the owner, shared
/// activations, and the parameter bytes of every device.
pub struct IslandDemandModel {
    pub residency: Map<(Seq<char>, (VulkanPhysicalExecutionResidencyKind, Seq<char>)), usize>,
    pub activations: Map<
        (Seq<char>, (VulkanDistributedActivationStorageModel, (Seq<char>, usize))),
        usize,
    >,
    pub parameter_bytes: Map<Seq<char>, usize>,
}

/// Adds a resource of the owner.
pub open spec fn residency_step() -> spec_fn(
    Map<(Seq<char>, (VulkanPhysicalExecutionResidencyKind, Seq<char>)), usize>,
    VulkanPhysicalExecutionResidencyRequirementModel,
) -> Result<
    Map<(Seq<char>, (VulkanPhysicalExecutionResidencyKind, Seq<char>)), usize>,
    Seq<char>,
> {
    |found: Map<(Seq<char>, (VulkanPhysicalExecutionResidencyKind, Seq<char>)), usize>,
        requirement: VulkanPhysicalExecutionResidencyRequirementModel|
        {
            let key = (requirement.device_id, (requirement.kind, requirement.resource_id));
            if found.contains_key(key) && found[key] != requirement.byte_capacity {
                Err(
                    "physical execution island resource "@ + debug_text(requirement.resource_id)
                        + " has conflicting capacities "@ + decimal_text(found[key] as nat)
                        + " and "@ + decimal_text(requirement.byte_capacity as nat),
                )
            } else {
                Ok(found.insert(key, requirement.byte_capacity))
            }
        }
}

/// Adds a shared activation.
pub open spec fn shared_activation_step(owner_device_id: Seq<char>) -> spec_fn(
    Map<(Seq<char>, (VulkanDistributedActivationStorageModel, (Seq<char>, usize))), usize>,
    VulkanDistributedActivationSlotModel,
) -> Result<
    Map<(Seq<char>, (VulkanDistributedActivationStorageModel, (Seq<char>, usize))), usize>,
    Seq<char>,
> {
    |found: Map<
        (Seq<char>, (VulkanDistributedActivationStorageModel, (Seq<char>, usize))),
        usize,
    >,
        activation: VulkanDistributedActivationSlotModel|
        {
            let key = (
                activation_owner(owner_device_id, activation),
                (activation.storage, (activation.component_id, activation.slot)),
            );
            if found.contains_key(key) && found[key] != activation.byte_capacity {
                Err(
                    "physical execution island activation "@ + activation.component_id + ".slot_"@
                        + decimal_text(activation.slot as nat) + " has conflicting capacities "@
                        + decimal_text(found[key] as nat) + " and "@ + decimal_text(
                        activation.byte_capacity as nat,
                    ),
                )
            } else {
                Ok(found.insert(key, activation.byte_capacity))
            }
        }
}

/// The bytes of a fragment.
pub open spec fn fragment_bytes() -> spec_fn(VulkanDistributedParameterFragmentModel) -> nat {
    |fragment: VulkanDistributedParameterFragmentModel| fragment.byte_count as nat
}

/// The parameter bytes of a shard.
pub open spec fn shard_parameter_bytes(shard: VulkanDistributedDispatchShardModel) -> nat {
    sum_of(shard.parameters, fragment_bytes())
}

/// Adds the parameter bytes of a shard to those of its device.
pub open spec fn parameter_bytes_step() -> spec_fn(
    Map<Seq<char>, usize>,
    VulkanDistributedDispatchShardModel,
) -> Result<Map<Seq<char>, usize>, Seq<char>> {
    |found: Map<Seq<char>, usize>, shard: VulkanDistributedDispatchShardModel|
        {
            let before = if found.contains_key(shard.device_id) {
                found[shard.device_id]
            } else {
                0
            };
            if shard_parameter_bytes(shard) > usize::MAX {
                Err("physical execution shard parameter bytes overflowed"@)
            } else if before + shard_parameter_bytes(shard) > usize::MAX {
                Err("physical execution participant parameter bytes overflowed"@)
            } else {
                Ok(found.insert(shard.device_id, (before + shard_parameter_bytes(shard)) as usize))
            }
        }
}

/// The activations that a dispatch shares with its other devices: those that are
/// not handed on locally.
pub open spec fn shared_activations(
    dispatch: VulkanDistributedDispatchPlanModel,
    producers: Set<usize>,
    consumers: Set<usize>,
) -> Seq<VulkanDistributedActivationSlotModel> {
    (if consumers.contains(dispatch.dispatch_index) {
        Seq::empty()
    } else {
        seq![dispatch.input_activation]
    }) + dispatch.auxiliary_input_activations + (if producers.contains(dispatch.dispatch_index) {
        Seq::empty()
    } else {
        seq![dispatch.output_activation]
    })
}

/// Adds what a dispatch needs to the demand of its island.
pub open spec fn demand_step(producers: Set<usize>, consumers: Set<usize>) -> spec_fn(
    IslandDemandModel,
    VulkanDistributedDispatchPlanModel,
) -> Result<IslandDemandModel, Seq<char>> {
    |demand: IslandDemandModel, dispatch: VulkanDistributedDispatchPlanModel|
        match fold_from(
            dispatch.owner_residency_requirements,
            0,
            demand.residency,
            residency_step(),
        ) {
            Err(message) => Err(message),
            Ok(residency) => match fold_from(
                shared_activations(dispatch, producers, consumers),
                0,
                demand.activations,
                shared_activation_step(dispatch.owner_device_id),
            ) {
                Err(message) => Err(message),
                Ok(activations) => match fold_from(
                    dispatch.shards,
                    0,
                    demand.parameter_bytes,
                    parameter_bytes_step(),
                ) {
                    Err(message) => Err(message),
                    Ok(parameter_bytes) => Ok(
                        IslandDemandModel { residency, activations, parameter_bytes },
                    ),
                },
            },
        }
}

/// The demand of an island, or the text of the error.
pub open spec fn island_demand(dispatches: Seq<VulkanDistributedDispatchPlanModel>) -> Result<
    IslandDemandModel,
    Seq<char>,
> {
    fold_from(
        dispatches,
        0,
        IslandDemandModel {
            residency: Map::empty(),
            activations: Map::empty(),
            parameter_bytes: Map::empty(),
        },
        demand_step(private_producers(dispatches), private_consumers(dispatches)),
    )
}

/// What an island keeps on its devices.
pub struct IslandDemand {
    pub residency: OrderedMap<(String, (VulkanPhysicalExecutionResidencyKind, String)), usize>,
    pub activations: OrderedMap<
        (String, (VulkanDistributedActivationStorage, (String, usize))),
        usize,
    >,
    pub parameter_bytes: OrderedMap<String, usize>,
}

impl DeepView for IslandDemand {
    type V = IslandDemandModel;

    open spec fn deep_view(&self) -> IslandDemandModel {
        IslandDemandModel {
            residency: self.residency.deep_view(),
            activations: self.activations.deep_view(),
            parameter_bytes: self.parameter_bytes.deep_view(),
        }
    }
}

/// Sums up the bytes of fragments, where they fit.
pub fn total_fragment_bytes(parameters: &Vec<VulkanDistributedParameterFragment>) -> (total: Option<
    usize,
>)
    ensures
        match total {
            Some(bytes) => bytes == sum_of(parameters.deep_view(), fragment_bytes()),
            None => sum_of(parameters.deep_view(), fragment_bytes()) > usize::MAX,
        },
{
    let ghost all = parameters.deep_view();
    let ghost measure = fragment_bytes();
    let mut total: usize = 0;
    for index in 0..parameters.len()
        invariant
            all == parameters.deep_view(),
            measure == fragment_bytes(),
            total == sum_of(all.take(index as int), measure),
    {
        proof {
            lemma_sum_step(all, measure, index as int);
            lemma_sum_prefix(all, measure, index as int + 1);
            assert(all[index as int] == parameters@[index as int].deep_view());
        }
        match total.checked_add(parameters[index].byte_count) {
            None => {
                return None;
            },
            Some(sum) => {
                total = sum;
            },
        }
    }
    assert(all.take(all.len() as int) =~= all);
    Some(total)
}

fn add_residency(
    found: &mut OrderedMap<(String, (VulkanPhysicalExecutionResidencyKind, String)), usize>,
    requirements: &Vec<VulkanPhysicalExecutionResidencyRequirement>,
) -> (outcome: Result<(), VulkanDistributedPlanError>)
    ensures
        match outcome {
            Ok(_) => fold_from(
                requirements.deep_view(),
                0,
                old(found).deep_view(),
                residency_step(),
            ) == Ok::<
                Map<(Seq<char>, (VulkanPhysicalExecutionResidencyKind, Seq<char>)), usize>,
                Seq<char>,
            >(final(found).deep_view()),
            Err(error) => fold_from(
                requirements.deep_view(),
                0,
                old(found).deep_view(),
                residency_step(),
            ) == Err::<
                Map<(Seq<char>, (VulkanPhysicalExecutionResidencyKind, Seq<char>)), usize>,
                Seq<char>,
            >(error.0@),
        },
{
    let ghost all = requirements.deep_view();
    let ghost step = residency_step();
    for index in 0..requirements.len()
        invariant
            all == requirements.deep_view(),
            step == residency_step(),
            fold_from(all, 0, old(found).deep_view(), step) == fold_from(
                all,
                index as nat,
                found.deep_view(),
                step,
            ),
    {
        let requirement = &requirements[index];
        assert(all[index as int] == requirement.deep_view());
        let replaced = found.insert(
            (
                requirement.device_id.clone(),
                (requirement.kind, requirement.resource_id.clone()),
            ),
            requirement.byte_capacity,
        );
        match replaced {
            None => {},
            Some(existing) => {
                if existing != requirement.byte_capacity {
                    return Err(
                        VulkanDistributedPlanError(
                            join6(
                                "physical execution island resource ",
                                quoted(requirement.resource_id.as_str()).as_str(),
                                " has conflicting capacities ",
                                decimal(existing).as_str(),
                                " and ",
                                decimal(requirement.byte_capacity).as_str(),
                            ),
                        ),
                    );
                }
            },
        }
    }
    Ok(())
}

fn add_activation(
    found: &mut OrderedMap<(String, (VulkanDistributedActivationStorage, (String, usize))), usize>,
    owner_device_id: &String,
    activation: &VulkanDistributedActivationSlot,
) -> (outcome: Result<(), VulkanDistributedPlanError>)
    ensures
        match outcome {
            Ok(_) => shared_activation_step(owner_device_id@)(
                old(found).deep_view(),
                activation.deep_view(),
            ) == Ok::<
                Map<
                    (Seq<char>, (VulkanDistributedActivationStorageModel, (Seq<char>, usize))),
                    usize,
                >,
                Seq<char>,
            >(final(found).deep_view()),
            Err(error) => shared_activation_step(owner_device_id@)(
                old(found).deep_view(),
                activation.deep_view(),
            ) == Err::<
                Map<
                    (Seq<char>, (VulkanDistributedActivationStorageModel, (Seq<char>, usize))),
                    usize,
                >,
                Seq<char>,
            >(error.0@),
        },
{
    let replaced = found.insert(
        (
            distributed_activation_owner_device_id(owner_device_id, activation),
            (
                activation.storage.duplicate(),
                (activation.component_id.clone(), activation.slot),
            ),
        ),
        activation.byte_capacity,
    );
    match replaced {
        None => {},
        Some(existing) => {
            if existing != activation.byte_capacity {
                return Err(
                    VulkanDistributedPlanError(
                        join8(
                            "physical execution island activation ",
                            activation.component_id.as_str(),
                            ".slot_",
                            decimal(activation.slot).as_str(),
                            " has conflicting capacities ",
                            decimal(existing).as_str(),
                            " and ",
                            decimal(activation.byte_capacity).as_str(),
                        ),
                    ),
                );
            }
        },
    }
    Ok(())
}

fn list_shared_activations(
    dispatch: &VulkanDistributedDispatchPlan,
    producers: &OrderedSet<usize>,
    consumers: &OrderedSet<usize>,
) -> (activations: Vec<VulkanDistributedActivationSlot>)
    ensures
        activations.deep_view() == shared_activations(
            dispatch.deep_view(),
            producers.deep_view(),
            consumers.deep_view(),
        ),
{
    let ghost auxiliary = dispatch.auxiliary_input_activations.deep_view();
    let ghost first = if consumers.deep_view().contains(dispatch.dispatch_index) {
        Seq::empty()
    } else {
        seq![dispatch.input_activation.deep_view()]
    };
    let mut activations: Vec<VulkanDistributedActivationSlot> = Vec::new();
    if !consumers.contains(&dispatch.dispatch_index) {
        append(&mut activations, dispatch.input_activation.duplicate());
    }
    assert(activations.deep_view() =~= first + auxiliary.take(0));
    for index in 0..dispatch.auxiliary_input_activations.len()
        invariant
            auxiliary == dispatch.auxiliary_input_activations.deep_view(),
            activations.deep_view() == first + auxiliary.take(index as int),
    {
        let ghost before = activations.deep_view();
        append(&mut activations, dispatch.auxiliary_input_activations[index].duplicate());
        assert(activations.deep_view() =~= first + auxiliary.take(index as int + 1));
    }
    assert(auxiliary.take(auxiliary.len() as int) =~= auxiliary);
    if !producers.contains(&dispatch.dispatch_index) {
        append(&mut activations, dispatch.output_activation.duplicate());
    }
    assert(activations.deep_view() =~= shared_activations(
        dispatch.deep_view(),
        producers.deep_view(),
        consumers.deep_view(),
    ));
    activations
}

fn add_shared_activations(
    found: &mut OrderedMap<(String, (VulkanDistributedActivationStorage, (String, usize))), usize>,
    owner_device_id: &String,
    activations: &Vec<VulkanDistributedActivationSlot>,
) -> (outcome: Result<(), VulkanDistributedPlanError>)
    ensures
        match outcome {
            Ok(_) => fold_from(
                activations.deep_view(),
                0,
                old(found).deep_view(),
                shared_activation_step(owner_device_id@),
            ) == Ok::<
                Map<
                    (Seq<char>, (VulkanDistributedActivationStorageModel, (Seq<char>, usize))),
                    usize,
                >,
                Seq<char>,
            >(final(found).deep_view()),
            Err(error) => fold_from(
                activations.deep_view(),
                0,
                old(found).deep_view(),
                shared_activation_step(owner_device_id@),
            ) == Err::<
                Map<
                    (Seq<char>, (VulkanDistributedActivationStorageModel, (Seq<char>, usize))),
                    usize,
                >,
                Seq<char>,
            >(error.0@),
        },
{
    let ghost all = activations.deep_view();
    let ghost step = shared_activation_step(owner_device_id@);
    for index in 0..activations.len()
        invariant
            all == activations.deep_view(),
            step == shared_activation_step(owner_device_id@),
            fold_from(all, 0, old(found).deep_view(), step) == fold_from(
                all,
                index as nat,
                found.deep_view(),
                step,
            ),
    {
        assert(all[index as int] == activations@[index as int].deep_view());
        match add_activation(found, owner_device_id, &activations[index]) {
            Err(error) => {
                return Err(error);
            },
            Ok(_) => {},
        }
    }
    Ok(())
}

fn add_parameter_bytes(
    found: &mut OrderedMap<String, usize>,
    shards: &Vec<VulkanDistributedDispatchShard>,
) -> (outcome: Result<(), VulkanDistributedPlanError>)
    ensures
        match outcome {
            Ok(_) => fold_from(
                shards.deep_view(),
                0,
                old(found).deep_view(),
                parameter_bytes_step(),
            ) == Ok::<Map<Seq<char>, usize>, Seq<char>>(final(found).deep_view()),
            Err(error) => fold_from(
                shards.deep_view(),
                0,
                old(found).deep_view(),
                parameter_bytes_step(),
            ) == Err::<Map<Seq<char>, usize>, Seq<char>>(error.0@),
        },
{
    let ghost all = shards.deep_view();
    let ghost step = parameter_bytes_step();
    for index in 0..shards.len()
        invariant
            all == shards.deep_view(),
            step == parameter_bytes_step(),
            fold_from(all, 0, old(found).deep_view(), step) == fold_from(
                all,
                index as nat,
                found.deep_view(),
                step,
            ),
    {
        let shard = &shards[index];
        assert(all[index as int] == shard.deep_view());
        let parameter_bytes: usize = match total_fragment_bytes(&shard.parameters) {
            None => {
                return Err(
                    VulkanDistributedPlanError(
                        "physical execution shard parameter bytes overflowed".to_owned(),
                    ),
                );
            },
            Some(bytes) => bytes,
        };
        let before: usize = match found.get(&shard.device_id) {
            Some(bytes) => *bytes,
            None => 0,
        };
        match before.checked_add(parameter_bytes) {
            None => {
                return Err(
                    VulkanDistributedPlanError(
                        "physical execution participant parameter bytes overflowed".to_owned(),
                    ),
                );
            },
            Some(bytes) => {
                found.insert(shard.device_id.clone(), bytes);
            },
        }
    }
    Ok(())
}

pub(crate) fn resolve_demand(dispatches: &Vec<VulkanDistributedDispatchPlan>) -> (outcome: Result<
    IslandDemand,
    VulkanDistributedPlanError,
>)
    ensures
        plan_agrees(outcome, island_demand(dispatches.deep_view())),
{
    let ghost all = dispatches.deep_view();
    let (producers, consumers) = list_private_handoffs(dispatches);
    let ghost step = demand_step(private_producers(all), private_consumers(all));
    let mut residency: OrderedMap<
        (String, (VulkanPhysicalExecutionResidencyKind, String)),
        usize,
    > = OrderedMap::new();
    let mut activations: OrderedMap<
        (String, (VulkanDistributedActivationStorage, (String, usize))),
        usize,
    > = OrderedMap::new();
    let mut parameter_bytes: OrderedMap<String, usize> = OrderedMap::new();
    for index in 0..dispatches.len()
        invariant
            all == dispatches.deep_view(),
            producers.deep_view() == private_producers(all),
            consumers.deep_view() == private_consumers(all),
            step == demand_step(private_producers(all), private_consumers(all)),
            island_demand(all) == fold_from(
                all,
                index as nat,
                IslandDemandModel {
                    residency: residency.deep_view(),
                    activations: activations.deep_view(),
                    parameter_bytes: parameter_bytes.deep_view(),
                },
                step,
            ),
    {
        let dispatch = &dispatches[index];
        assert(all[index as int] == dispatch.deep_view());
        match add_residency(&mut residency, &dispatch.owner_residency_requirements) {
            Err(error) => {
                return Err(error);
            },
            Ok(_) => {},
        }
        let shared = list_shared_activations(dispatch, &producers, &consumers);
        match add_shared_activations(&mut activations, &dispatch.owner_device_id, &shared) {
            Err(error) => {
                return Err(error);
            },
            Ok(_) => {},
        }
        match add_parameter_bytes(&mut parameter_bytes, &dispatch.shards) {
            Err(error) => {
                return Err(error);
            },
            Ok(_) => {},
        }
    }
    Ok(IslandDemand { residency, activations, parameter_bytes })
}

/// The devices of shards, in their order.
pub open spec fn shard_device_ids(shards: Seq<VulkanDistributedDispatchShardModel>) -> Seq<
    Seq<char>,
> {
    Seq::new(shards.len(), |i: int| shards[i].device_id)
}

/// The devices of all shards of an island, dispatch by dispatch.
pub open spec fn island_workers(dispatches: Seq<VulkanDistributedDispatchPlanModel>) -> Seq<
    Seq<char>,
>
    decreases dispatches.len(),
{
    if dispatches.len() == 0 {
        Seq::empty()
    } else {
        island_workers(dispatches.drop_last()) + shard_device_ids(dispatches.last().shards)
    }
}

pub fn list_shard_device_ids(shards: &Vec<VulkanDistributedDispatchShard>) -> (device_ids: Vec<
    String,
>)
    ensures
        device_ids.deep_view() == shard_device_ids(shards.deep_view()),
        device_ids.len() == shards.len(),
{
    let mut device_ids: Vec<String> = Vec::new();
    for index in 0..shards.len()
        invariant
            device_ids.len() == index,
            forall|i: int|
                0 <= i < index ==> (#[trigger] device_ids@[i])@ == shards@[i].device_id@,
    {
        device_ids.push(shards[index].device_id.clone());
    }
    assert(device_ids.deep_view() =~= shard_device_ids(shards.deep_view()));
    device_ids
}

/// Appends copies of values.
pub fn append_all<T: PlainValue>(items: &mut Vec<T>, more: &Vec<T>)
    ensures
        final(items).deep_view() == old(items).deep_view() + more.deep_view(),
{
    let ghost before = items.deep_view();
    let ghost extra = more.deep_view();
    assert(before =~= before + extra.take(0));
    for index in 0..more.len()
        invariant
            extra == more.deep_view(),
            items.deep_view() == before + extra.take(index as int),
    {
        append(items, more[index].duplicate());
        assert(items.deep_view() =~= before + extra.take(index as int + 1));
    }
    assert(extra.take(extra.len() as int) =~= extra);
}

pub(crate) fn list_workers(
    dispatches: &Vec<VulkanDistributedDispatchPlan>,
) -> (workers: Vec<String>)
    ensures
        workers.deep_view() == island_workers(dispatches.deep_view()),
{
    let ghost all = dispatches.deep_view();
    let mut workers: Vec<String> = Vec::new();
    assert(workers.deep_view() =~= Seq::empty());
    for index in 0..dispatches.len()
        invariant
            all == dispatches.deep_view(),
            workers.deep_view() == island_workers(all.take(index as int)),
    {
        assert(all.take(index as int + 1).drop_last() =~= all.take(index as int));
        assert(all[index as int] == dispatches@[index as int].deep_view());
        let device_ids = list_shard_device_ids(&dispatches[index].shards);
        append_all(&mut workers, &device_ids);
    }
    assert(all.take(all.len() as int) =~= all);
    workers
}

/// The roles of the owner and of the workers of an island.
pub open spec fn participant_roles(owner_device_id: Seq<char>, workers: Seq<Seq<char>>) -> Map<
    Seq<char>,
    Set<VulkanPhysicalExecutionParticipantRole>,
>
    decreases workers.len(),
{
    if workers.len() == 0 {
        Map::empty().insert(
            owner_device_id,
            Set::empty().insert(VulkanPhysicalExecutionParticipantRole::Coordinator),
        )
    } else {
        let found = participant_roles(owner_device_id, workers.drop_last());
        let worker = workers.last();
        let roles = if found.contains_key(worker) {
            found[worker]
        } else {
            Set::empty()
        };
        found.insert(worker, roles.insert(VulkanPhysicalExecutionParticipantRole::ShardWorker))
    }
}

/// The participants of an island, by device.
pub open spec fn island_participants(owner_device_id: Seq<char>, workers: Seq<Seq<char>>) -> Seq<
    VulkanPhysicalExecutionParticipantModel,
> {
    ordered_listing::<String, Set<VulkanPhysicalExecutionParticipantRole>>(
        participant_roles(owner_device_id, workers),
    ).map_values(
        |entry: (Seq<char>, Set<VulkanPhysicalExecutionParticipantRole>)|
            VulkanPhysicalExecutionParticipantModel { device_id: entry.0, roles: entry.1 },
    )
}

pub(crate) fn list_participants(
    owner_device_id: &String,
    workers: &Vec<String>,
) -> (participants: Vec<
    VulkanPhysicalExecutionParticipant,
>)
    ensures
        participants.deep_view() == island_participants(owner_device_id@, workers.deep_view()),
{
    let ghost all = workers.deep_view();
    let mut roles: OrderedMap<String, OrderedSet<VulkanPhysicalExecutionParticipantRole>> =
        OrderedMap::new();
    let mut owner_roles: OrderedSet<VulkanPhysicalExecutionParticipantRole> = OrderedSet::new();
    owner_roles.insert(VulkanPhysicalExecutionParticipantRole::Coordinator);
    roles.insert(owner_device_id.clone(), owner_roles);
    for index in 0..workers.len()
        invariant
            all == workers.deep_view(),
            roles.deep_view() == participant_roles(owner_device_id@, all.take(index as int)),
    {
        assert(all.take(index as int + 1).drop_last() =~= all.take(index as int));
        assert(all[index as int] == workers@[index as int]@);
        let mut worker_roles: OrderedSet<VulkanPhysicalExecutionParticipantRole> = match roles.get(
            &workers[index],
        ) {
            Some(found) => found.duplicate(),
            None => OrderedSet::new(),
        };
        worker_roles.insert(VulkanPhysicalExecutionParticipantRole::ShardWorker);
        roles.insert(workers[index].clone(), worker_roles);
    }
    assert(all.take(all.len() as int) =~= all);
    let ghost listing = roles.listing();
    let ghost expected = island_participants(owner_device_id@, all);
    let count: usize = roles.len();
    let mut participants: Vec<VulkanPhysicalExecutionParticipant> = Vec::new();
    for index in 0..count
        invariant
            count == listing.len(),
            listing == roles.listing(),
            expected.len() == count,
            forall|i: int|
                0 <= i < count ==> #[trigger] expected[i] == (
                VulkanPhysicalExecutionParticipantModel {
                    device_id: listing[i].0,
                    roles: listing[i].1,
                }),
            participants.deep_view() == expected.take(index as int),
    {
        append(
            &mut participants,
            VulkanPhysicalExecutionParticipant {
                device_id: roles.key_at(index).clone(),
                roles: roles.value_at(index).duplicate(),
            },
        );
        assert(expected.take(index as int + 1) =~= expected.take(index as int).push(
            expected[index as int],
        ));
    }
    assert(expected.take(expected.len() as int) =~= expected);
    participants
}

/// The pairs of devices between which the queues of an island wait: the owner
/// with every other worker, in both directions.
pub open spec fn synchronized_pairs(owner_device_id: Seq<char>, workers: Seq<Seq<char>>) -> Set<
    (Seq<char>, Seq<char>),
>
    decreases workers.len(),
{
    if workers.len() == 0 {
        Set::empty()
    } else {
        let found = synchronized_pairs(owner_device_id, workers.drop_last());
        if workers.last() == owner_device_id {
            found
        } else {
            found.insert((owner_device_id, workers.last())).insert(
                (workers.last(), owner_device_id),
            )
        }
    }
}

/// The synchronization routes of an island.
pub open spec fn island_synchronization(owner_device_id: Seq<char>, workers: Seq<Seq<char>>) -> Seq<
    VulkanPhysicalExecutionSynchronizationRouteModel,
> {
    ordered_members::<(String, String)>(synchronized_pairs(owner_device_id, workers)).map_values(
        |pair: (Seq<char>, Seq<char>)|
            VulkanPhysicalExecutionSynchronizationRouteModel {
                source_device_id: pair.0,
                destination_device_id: pair.1,
                kind: VulkanPhysicalExecutionSynchronizationKind::TimelineSemaphore,
            },
    )
}

pub(crate) fn list_synchronization(owner_device_id: &String, workers: &Vec<String>) -> (routes: Vec<
    VulkanPhysicalExecutionSynchronizationRoute,
>)
    ensures
        routes.deep_view() == island_synchronization(owner_device_id@, workers.deep_view()),
{
    let ghost all = workers.deep_view();
    let mut pairs: OrderedSet<(String, String)> = OrderedSet::new();
    for index in 0..workers.len()
        invariant
            all == workers.deep_view(),
            pairs.deep_view() == synchronized_pairs(owner_device_id@, all.take(index as int)),
    {
        assert(all.take(index as int + 1).drop_last() =~= all.take(index as int));
        assert(all[index as int] == workers@[index as int]@);
        if workers[index] != *owner_device_id {
            pairs.insert((owner_device_id.clone(), workers[index].clone()));
            pairs.insert((workers[index].clone(), owner_device_id.clone()));
        }
    }
    assert(all.take(all.len() as int) =~= all);
    let ghost expected = island_synchronization(owner_device_id@, all);
    let count: usize = pairs.len();
    let mut routes: Vec<VulkanPhysicalExecutionSynchronizationRoute> = Vec::new();
    for index in 0..count
        invariant
            count == pairs.listing().len(),
            expected.len() == count,
            forall|i: int|
                0 <= i < count ==> #[trigger] expected[i] == (
                VulkanPhysicalExecutionSynchronizationRouteModel {
                    source_device_id: pairs.listing()[i].0,
                    destination_device_id: pairs.listing()[i].1,
                    kind: VulkanPhysicalExecutionSynchronizationKind::TimelineSemaphore,
                }),
            routes.deep_view() == expected.take(index as int),
    {
        let pair = pairs.member_at(index);
        append(
            &mut routes,
            VulkanPhysicalExecutionSynchronizationRoute {
                source_device_id: pair.0.clone(),
                destination_device_id: pair.1.clone(),
                kind: VulkanPhysicalExecutionSynchronizationKind::TimelineSemaphore,
            },
        );
        assert(expected.take(index as int + 1) =~= expected.take(index as int).push(
            expected[index as int],
        ));
    }
    assert(expected.take(expected.len() as int) =~= expected);
    routes
}

/// The ways of bytes between the participants of an island: from the entry to
/// every other participant, and from every participant to the exit.
pub open spec fn transported_pairs(
    participants: Seq<VulkanPhysicalExecutionParticipantModel>,
    entry_device_id: Seq<char>,
    exit_device_id: Seq<char>,
    input_bytes: usize,
    output_bytes: usize,
) -> Set<(Seq<char>, (Seq<char>, usize))>
    decreases participants.len(),
{
    if participants.len() == 0 {
        Set::empty()
    } else {
        let found = transported_pairs(
            participants.drop_last(),
            entry_device_id,
            exit_device_id,
            input_bytes,
            output_bytes,
        );
        let device_id = participants.last().device_id;
        let entered = if device_id == entry_device_id {
            found
        } else {
            found.insert((entry_device_id, (device_id, input_bytes)))
        };
        if device_id == exit_device_id {
            entered
        } else {
            entered.insert((device_id, (exit_device_id, output_bytes)))
        }
    }
}

/// The transport routes of an island.
pub open spec fn island_transport(
    participants: Seq<VulkanPhysicalExecutionParticipantModel>,
    entry_device_id: Seq<char>,
    exit_device_id: Seq<char>,
    input_bytes: usize,
    output_bytes: usize,
    route: VulkanSharedResidentBufferRoute,
) -> Seq<VulkanPhysicalExecutionTransportRouteModel> {
    ordered_members::<(String, (String, usize))>(
        transported_pairs(participants, entry_device_id, exit_device_id, input_bytes, output_bytes),
    ).map_values(
        |pair: (Seq<char>, (Seq<char>, usize))|
            VulkanPhysicalExecutionTransportRouteModel {
                source_device_id: pair.0,
                destination_device_id: pair.1.0,
                byte_capacity: pair.1.1,
                kind: route_transport(route),
            },
    )
}

pub(crate) fn list_transport(
    participants: &Vec<VulkanPhysicalExecutionParticipant>,
    entry_device_id: &String,
    exit_device_id: &String,
    input_bytes: usize,
    output_bytes: usize,
    route: VulkanSharedResidentBufferRoute,
) -> (routes: Vec<VulkanPhysicalExecutionTransportRoute>)
    ensures
        routes.deep_view() == island_transport(
            participants.deep_view(),
            entry_device_id@,
            exit_device_id@,
            input_bytes,
            output_bytes,
            route,
        ),
{
    let ghost all = participants.deep_view();
    let mut pairs: OrderedSet<(String, (String, usize))> = OrderedSet::new();
    for index in 0..participants.len()
        invariant
            all == participants.deep_view(),
            pairs.deep_view() == transported_pairs(
                all.take(index as int),
                entry_device_id@,
                exit_device_id@,
                input_bytes,
                output_bytes,
            ),
    {
        assert(all.take(index as int + 1).drop_last() =~= all.take(index as int));
        assert(all[index as int] == participants@[index as int].deep_view());
        let device_id = &participants[index].device_id;
        if *device_id != *entry_device_id {
            pairs.insert((entry_device_id.clone(), (device_id.clone(), input_bytes)));
        }
        if *device_id != *exit_device_id {
            pairs.insert((device_id.clone(), (exit_device_id.clone(), output_bytes)));
        }
    }
    assert(all.take(all.len() as int) =~= all);
    let kind = physical_execution_transport_kind(route);
    let ghost expected = island_transport(
        all,
        entry_device_id@,
        exit_device_id@,
        input_bytes,
        output_bytes,
        route,
    );
    let count: usize = pairs.len();
    let mut routes: Vec<VulkanPhysicalExecutionTransportRoute> = Vec::new();
    for index in 0..count
        invariant
            count == pairs.listing().len(),
            kind == route_transport(route),
            expected.len() == count,
            forall|i: int|
                0 <= i < count ==> #[trigger] expected[i] == (
                VulkanPhysicalExecutionTransportRouteModel {
                    source_device_id: pairs.listing()[i].0,
                    destination_device_id: pairs.listing()[i].1.0,
                    byte_capacity: pairs.listing()[i].1.1,
                    kind: route_transport(route),
                }),
            routes.deep_view() == expected.take(index as int),
    {
        let pair = pairs.member_at(index);
        append(
            &mut routes,
            VulkanPhysicalExecutionTransportRoute {
                source_device_id: pair.0.clone(),
                destination_device_id: pair.1.0.clone(),
                byte_capacity: pair.1.1,
                kind,
            },
        );
        assert(expected.take(index as int + 1) =~= expected.take(index as int).push(
            expected[index as int],
        ));
    }
    assert(expected.take(expected.len() as int) =~= expected);
    routes
}

/// The assignment of a shard to its device.
pub open spec fn shard_assignment(
    dispatch: VulkanDistributedDispatchPlanModel,
    shard: VulkanDistributedDispatchShardModel,
) -> VulkanPhysicalExecutionShardAssignmentModel {
    VulkanPhysicalExecutionShardAssignmentModel {
        dispatch_index: dispatch.dispatch_index,
        node_id: dispatch.node_id,
        device_id: shard.device_id,
        distribution: dispatch.distribution,
        logical_start: shard.row_start,
        logical_count: shard.row_count,
        parameter_bytes: shard_parameter_bytes(shard) as usize,
    }
}

/// The assignments of the shards of an island, dispatch by dispatch.
pub open spec fn island_assignments(dispatches: Seq<VulkanDistributedDispatchPlanModel>) -> Seq<
    VulkanPhysicalExecutionShardAssignmentModel,
>
    decreases dispatches.len(),
{
    if dispatches.len() == 0 {
        Seq::empty()
    } else {
        island_assignments(dispatches.drop_last()) + Seq::new(
            dispatches.last().shards.len(),
            |i: int| shard_assignment(dispatches.last(), dispatches.last().shards[i]),
        )
    }
}

/// The parameter bytes of every shard fit.
pub open spec fn shard_bytes_fit(dispatches: Seq<VulkanDistributedDispatchPlanModel>) -> bool {
    forall|i: int, j: int|
        #![trigger dispatches[i].shards[j]]
        0 <= i < dispatches.len() && 0 <= j < dispatches[i].shards.len() ==> shard_parameter_bytes(
            dispatches[i].shards[j],
        ) <= usize::MAX
}

/// An island whose demand is resolved has shards whose parameter bytes fit.
pub proof fn lemma_demand_fits(
    dispatches: Seq<VulkanDistributedDispatchPlanModel>,
    index: nat,
    demand: IslandDemandModel,
    producers: Set<usize>,
    consumers: Set<usize>,
)
    requires
        fold_from(dispatches, index, demand, demand_step(producers, consumers)) is Ok,
    ensures
        forall|i: int, j: int|
            #![trigger dispatches[i].shards[j]]
            index <= i < dispatches.len() && 0 <= j < dispatches[i].shards.len()
                ==> shard_parameter_bytes(dispatches[i].shards[j]) <= usize::MAX,
    decreases dispatches.len() - index,
{
    if index < dispatches.len() {
        let step = demand_step(producers, consumers);
        let dispatch = dispatches[index as int];
        let next = step(demand, dispatch);
        assert(next is Ok);
        lemma_demand_fits(dispatches, index + 1, next->Ok_0, producers, consumers);
        lemma_shards_fit(dispatch.shards, 0, demand.parameter_bytes);
        assert forall|i: int, j: int|
            #![trigger dispatches[i].shards[j]]
            index <= i < dispatches.len() && 0 <= j
                < dispatches[i].shards.len() implies shard_parameter_bytes(dispatches[i].shards[j])
            <= usize::MAX by {
            if i == index {
                assert(shard_parameter_bytes(dispatch.shards[j]) <= usize::MAX);
            }
        }
    }
}

proof fn lemma_shards_fit(
    shards: Seq<VulkanDistributedDispatchShardModel>,
    index: nat,
    found: Map<Seq<char>, usize>,
)
    requires
        fold_from(shards, index, found, parameter_bytes_step()) is Ok,
    ensures
        forall|j: int|
            index <= j < shards.len() ==> shard_parameter_bytes(#[trigger] shards[j]) <= usize::MAX,
    decreases shards.len() - index,
{
    if index < shards.len() {
        let step = parameter_bytes_step();
        let next = step(found, shards[index as int]);
        assert(next is Ok);
        lemma_shards_fit(shards, index + 1, next->Ok_0);
    }
}

pub(crate) fn list_assignments(
    dispatches: &Vec<VulkanDistributedDispatchPlan>,
) -> (assignments: Vec<
    VulkanPhysicalExecutionShardAssignment,
>)
    requires
        shard_bytes_fit(dispatches.deep_view()),
    ensures
        assignments.deep_view() == island_assignments(dispatches.deep_view()),
{
    let ghost all = dispatches.deep_view();
    let mut assignments: Vec<VulkanPhysicalExecutionShardAssignment> = Vec::new();
    assert(assignments.deep_view() =~= Seq::empty());
    for index in 0..dispatches.len()
        invariant
            shard_bytes_fit(all),
            all == dispatches.deep_view(),
            assignments.deep_view() == island_assignments(all.take(index as int)),
    {
        assert(all.take(index as int + 1).drop_last() =~= all.take(index as int));
        let dispatch = &dispatches[index];
        let ghost model = all[index as int];
        assert(model == dispatch.deep_view());
        let ghost before = assignments.deep_view();
        let ghost own = Seq::new(
            model.shards.len(),
            |i: int| shard_assignment(model, model.shards[i]),
        );
        assert(before =~= before + own.take(0));
        for shard_index in 0..dispatch.shards.len()
            invariant
                shard_bytes_fit(all),
                0 <= index < all.len(),
                model == all[index as int],
                model == dispatch.deep_view(),
                own == Seq::new(
                    model.shards.len(),
                    |i: int| shard_assignment(model, model.shards[i]),
                ),
                assignments.deep_view() == before + own.take(shard_index as int),
        {
            let shard = &dispatch.shards[shard_index];
            assert(model.shards[shard_index as int] == shard.deep_view());
            assert(shard_parameter_bytes(all[index as int].shards[shard_index as int])
                <= usize::MAX);
            let parameter_bytes: usize = match total_fragment_bytes(&shard.parameters) {
                Some(bytes) => bytes,
                None => 0,
            };
            append(
                &mut assignments,
                VulkanPhysicalExecutionShardAssignment {
                    dispatch_index: dispatch.dispatch_index,
                    node_id: dispatch.node_id.clone(),
                    device_id: shard.device_id.clone(),
                    distribution: dispatch.distribution,
                    logical_start: shard.row_start,
                    logical_count: shard.row_count,
                    parameter_bytes,
                },
            );
            assert(assignments.deep_view() =~= before + own.take(shard_index as int + 1));
        }
        assert(own.take(own.len() as int) =~= own);
    }
    assert(all.take(all.len() as int) =~= all);
    assignments
}

/// The step at which the shards of a dispatch execute.
pub open spec fn execute_step(
    dispatches: Seq<VulkanDistributedDispatchPlanModel>,
    index: int,
) -> VulkanPhysicalExecutionScheduleStepModel {
    VulkanPhysicalExecutionScheduleStepModel {
        ordinal: (index + 1) as usize,
        dispatch_index: dispatches[index].dispatch_index,
        kind: VulkanPhysicalExecutionScheduleKind::ExecuteShards,
        device_ids: distinct(shard_device_ids(dispatches[index].shards)),
    }
}

/// The schedule of an island: the inputs are published to the workers of the first
/// dispatch, the dispatches execute in their order, and the outputs of the last
/// one are collected at the exit.
pub open spec fn island_schedule(
    dispatches: Seq<VulkanDistributedDispatchPlanModel>,
    exit_device_id: Seq<char>,
) -> Seq<VulkanPhysicalExecutionScheduleStepModel> {
    seq![
        VulkanPhysicalExecutionScheduleStepModel {
            ordinal: 0,
            dispatch_index: dispatches.first().dispatch_index,
            kind: VulkanPhysicalExecutionScheduleKind::PublishInputs,
            device_ids: distinct(shard_device_ids(dispatches.first().shards)),
        },
    ] + Seq::new(dispatches.len(), |i: int| execute_step(dispatches, i)) + seq![
        VulkanPhysicalExecutionScheduleStepModel {
            ordinal: (dispatches.len() + 1) as usize,
            dispatch_index: dispatches.last().dispatch_index,
            kind: VulkanPhysicalExecutionScheduleKind::CollectOutputs,
            device_ids: seq![exit_device_id],
        },
    ]
}

/// The distinct values in the order of their first occurrence.
pub fn distinct_values<T: PlainValue>(items: &Vec<T>) -> (values: Vec<T>)
    ensures
        values.deep_view() == distinct(items.deep_view()),
{
    let ghost all = items.deep_view();
    let mut values: Vec<T> = Vec::new();
    assert(values.deep_view() =~= Seq::empty());
    for index in 0..items.len()
        invariant
            all == items.deep_view(),
            values.deep_view() == distinct(all.take(index as int)),
    {
        assert(all.take(index as int + 1).drop_last() =~= all.take(index as int));
        assert(all[index as int] == items@[index as int].deep_view());
        push_distinct(&mut values, &items[index]);
    }
    assert(all.take(all.len() as int) =~= all);
    values
}

pub(crate) fn list_schedule(
    dispatches: &Vec<VulkanDistributedDispatchPlan>,
    exit_device_id: &String,
) -> (steps:
    Vec<VulkanPhysicalExecutionScheduleStep>)
    requires
        dispatches.len() > 0,
    ensures
        steps.deep_view() == island_schedule(dispatches.deep_view(), exit_device_id@),
{
    let ghost all = dispatches.deep_view();
    assert(all[0] == dispatches@[0].deep_view());
    let mut steps: Vec<VulkanPhysicalExecutionScheduleStep> = Vec::new();
    let first_device_ids = list_shard_device_ids(&dispatches[0].shards);
    append(
        &mut steps,
        VulkanPhysicalExecutionScheduleStep {
            ordinal: 0,
            dispatch_index: dispatches[0].dispatch_index,
            kind: VulkanPhysicalExecutionScheduleKind::PublishInputs,
            device_ids: distinct_values(&first_device_ids),
        },
    );
    let ghost publish = steps.deep_view();
    let ghost own = Seq::new(all.len(), |i: int| execute_step(all, i));
    assert(publish =~= publish + own.take(0));
    for index in 0..dispatches.len()
        invariant
            publish.len() == 1,
            all == dispatches.deep_view(),
            own == Seq::new(all.len(), |i: int| execute_step(all, i)),
            steps.deep_view() == publish + own.take(index as int),
    {
        assert(all[index as int] == dispatches@[index as int].deep_view());
        let device_ids = list_shard_device_ids(&dispatches[index].shards);
        let ordinal: usize = steps.len();
        assert(ordinal == steps.deep_view().len());
        append(
            &mut steps,
            VulkanPhysicalExecutionScheduleStep {
                ordinal,
                dispatch_index: dispatches[index].dispatch_index,
                kind: VulkanPhysicalExecutionScheduleKind::ExecuteShards,
                device_ids: distinct_values(&device_ids),
            },
        );
        assert(steps.deep_view() =~= publish + own.take(index as int + 1));
    }
    assert(own.take(own.len() as int) =~= own);
    let last: usize = dispatches.len() - 1;
    assert(all.last() == dispatches@[last as int].deep_view());
    let mut exit: Vec<String> = Vec::new();
    append(&mut exit, exit_device_id.clone());
    let ordinal: usize = steps.len();
    assert(ordinal == steps.deep_view().len());
    assert(exit.deep_view() =~= seq![exit_device_id@]);
    append(
        &mut steps,
        VulkanPhysicalExecutionScheduleStep {
            ordinal,
            dispatch_index: dispatches[last].dispatch_index,
            kind: VulkanPhysicalExecutionScheduleKind::CollectOutputs,
            device_ids: exit,
        },
    );
    assert(publish =~= seq![
        VulkanPhysicalExecutionScheduleStepModel {
            ordinal: 0,
            dispatch_index: all.first().dispatch_index,
            kind: VulkanPhysicalExecutionScheduleKind::PublishInputs,
            device_ids: distinct(shard_device_ids(all.first().shards)),
        },
    ]);
    assert(steps.deep_view() =~= island_schedule(all, exit_device_id@));
    steps
}

} // verus!
