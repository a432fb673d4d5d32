//! Resolving physical execution islands from distributed dispatches.
use vstd::prelude::*;

use crate::contracts::ExecutionPhase;
use crate::errors::{plan_agrees, VulkanDistributedPlanError};
use crate::execution_plans::{
    VulkanDistributedActivationStorage, VulkanDistributedActivationStorageModel,
    VulkanDistributedDispatchPlan, VulkanDistributedDispatchPlanModel,
    VulkanPhysicalExecutionIslandPlan, VulkanPhysicalExecutionIslandPlanModel,
    VulkanPhysicalExecutionPhaseSchedule, VulkanPhysicalExecutionPhaseScheduleModel,
    VulkanPhysicalExecutionResidencyKind, VulkanPhysicalExecutionResidencyRequirement,
    VulkanPhysicalExecutionResidencyRequirementModel, VulkanPhysicalExecutionTransientMemoryKind,
    VulkanPhysicalExecutionTransientMemoryRequirement,
    VulkanPhysicalExecutionTransientMemoryRequirementModel, VulkanSharedResidentBufferRoute,
};
use crate::islands::{
    activation_owner, append_all, dense_local_shard_handoff, distinct_values,
    distributed_activation_owner_device_id, distributed_dispatches_can_share_sequence,
    hands_off_locally, island_assignments, island_demand, island_participants, island_schedule,
    island_synchronization, island_transport, island_workers, lemma_demand_fits, list_assignments,
    list_participants, list_schedule, list_synchronization, list_transport, list_workers,
    private_consumers, private_producers, resolve_demand, shares_sequence, IslandDemandModel,
};
use crate::ordered::{ordered_listing, OrderedMap};
use crate::sequences::{append, distinct};
use crate::text::{debug_text, decimal, decimal_text, join3, join5, join7, join8, quoted};
use crate::values::PlainValue;

verus! {

/// The permanent requirement of the parameter shards of a device.
pub open spec fn parameter_requirement(
    entry: (Seq<char>, usize),
) -> VulkanPhysicalExecutionResidencyRequirementModel {
    VulkanPhysicalExecutionResidencyRequirementModel {
        device_id: entry.0,
        kind: VulkanPhysicalExecutionResidencyKind::PermanentParameterShard,
        resource_id: "parameter_shards"@,
        byte_capacity: entry.1,
    }
}

/// The requirement of a resource of the owner.
pub open spec fn resource_requirement(
    entry: ((Seq<char>, (VulkanPhysicalExecutionResidencyKind, Seq<char>)), usize),
) -> VulkanPhysicalExecutionResidencyRequirementModel {
    VulkanPhysicalExecutionResidencyRequirementModel {
        device_id: entry.0.0,
        kind: entry.0.1.0,
        resource_id: entry.0.1.1,
        byte_capacity: entry.1,
    }
}

/// What an island keeps resident: the parameter shards by device, then the
/// resources of the owner.
pub open spec fn island_residency(demand: IslandDemandModel) -> Seq<
    VulkanPhysicalExecutionResidencyRequirementModel,
> {
    ordered_listing::<String, usize>(demand.parameter_bytes).map_values(
        |entry: (Seq<char>, usize)| parameter_requirement(entry),
    ) + ordered_listing::<(String, (VulkanPhysicalExecutionResidencyKind, String)), usize>(
        demand.residency,
    ).map_values(
        |entry: ((Seq<char>, (VulkanPhysicalExecutionResidencyKind, Seq<char>)), usize)|
            resource_requirement(entry),
    )
}

fn list_residency(
    parameter_bytes: &OrderedMap<String, usize>,
    resources: &OrderedMap<(String, (VulkanPhysicalExecutionResidencyKind, String)), usize>,
    Ghost(demand): Ghost<IslandDemandModel>,
) -> (residency: Vec<VulkanPhysicalExecutionResidencyRequirement>)
    requires
        demand.parameter_bytes == parameter_bytes.deep_view(),
        demand.residency == resources.deep_view(),
    ensures
        residency.deep_view() == island_residency(demand),
{
    let ghost parameters = parameter_bytes.listing().map_values(
        |entry: (Seq<char>, usize)| parameter_requirement(entry),
    );
    let ghost owned = resources.listing().map_values(
        |entry: ((Seq<char>, (VulkanPhysicalExecutionResidencyKind, Seq<char>)), usize)|
            resource_requirement(entry),
    );
    let parameter_count: usize = parameter_bytes.len();
    let mut residency: Vec<VulkanPhysicalExecutionResidencyRequirement> = Vec::new();
    assert(residency.deep_view() =~= parameters.take(0));
    for index in 0..parameter_count
        invariant
            parameter_count == parameter_bytes.listing().len(),
            parameters.len() == parameter_count,
            forall|i: int|
                0 <= i < parameter_count ==> #[trigger] parameters[i] == parameter_requirement(
                    parameter_bytes.listing()[i],
                ),
            residency.deep_view() == parameters.take(index as int),
    {
        append(
            &mut residency,
            VulkanPhysicalExecutionResidencyRequirement {
                device_id: parameter_bytes.key_at(index).clone(),
                kind: VulkanPhysicalExecutionResidencyKind::PermanentParameterShard,
                resource_id: "parameter_shards".to_owned(),
                byte_capacity: *parameter_bytes.value_at(index),
            },
        );
        assert(parameters.take(index as int + 1) =~= parameters.take(index as int).push(
            parameters[index as int],
        ));
    }
    assert(parameters.take(parameters.len() as int) =~= parameters);
    let resource_count: usize = resources.len();
    assert(parameters =~= parameters + owned.take(0));
    for index in 0..resource_count
        invariant
            resource_count == resources.listing().len(),
            owned.len() == resource_count,
            forall|i: int|
                0 <= i < resource_count ==> #[trigger] owned[i] == resource_requirement(
                    resources.listing()[i],
                ),
            residency.deep_view() == parameters + owned.take(index as int),
    {
        let key = resources.key_at(index);
        append(
            &mut residency,
            VulkanPhysicalExecutionResidencyRequirement {
                device_id: key.0.clone(),
                kind: key.1.0,
                resource_id: key.1.1.clone(),
                byte_capacity: *resources.value_at(index),
            },
        );
        assert(residency.deep_view() =~= parameters + owned.take(index as int + 1));
    }
    assert(owned.take(owned.len() as int) =~= owned);
    residency
}

/// The bytes of private intermediates by device, component, slot, producer and
/// consumer.
pub type PrivateBytesModel = Map<(Seq<char>, (Seq<char>, (usize, (usize, usize)))), usize>;

/// Adds the private intermediates of the shards of a producer from a shard on, or
/// says why they conflict.
pub open spec fn private_shards_from(
    producer: VulkanDistributedDispatchPlanModel,
    consumer: VulkanDistributedDispatchPlanModel,
    index: nat,
    found: PrivateBytesModel,
) -> Result<PrivateBytesModel, Seq<char>>
    decreases producer.shards.len() - index,
{
    if index >= producer.shards.len() || index >= consumer.shards.len() {
        Ok(found)
    } else {
        let shard = producer.shards[index as int];
        let activation = producer.output_activation;
        let key = (
            shard.device_id,
            (
                activation.component_id,
                (activation.slot, (producer.dispatch_index, consumer.dispatch_index)),
            ),
        );
        if found.contains_key(key) && found[key] != shard.output_byte_count {
            Err(
                "physical execution private intermediate "@ + activation.component_id + ".slot_"@
                    + decimal_text(activation.slot as nat) + " has conflicting capacities "@
                    + decimal_text(found[key] as nat) + " and "@ + decimal_text(
                    shard.output_byte_count as nat,
                ),
            )
        } else {
            private_shards_from(
                producer,
                consumer,
                index + 1,
                found.insert(key, shard.output_byte_count),
            )
        }
    }
}

/// Adds the private intermediates of an island from a pair of dispatches on, or
/// says why they conflict.
pub open spec fn private_pairs_from(
    dispatches: Seq<VulkanDistributedDispatchPlanModel>,
    index: nat,
    found: PrivateBytesModel,
) -> Result<PrivateBytesModel, Seq<char>>
    decreases dispatches.len() - index,
{
    if index + 1 >= dispatches.len() {
        Ok(found)
    } else if hands_off_locally(dispatches[index as int], dispatches[index as int + 1]) {
        match private_shards_from(
            dispatches[index as int],
            dispatches[index as int + 1],
            0,
            found,
        ) {
            Err(message) => Err(message),
            Ok(next) => private_pairs_from(dispatches, index + 1, next),
        }
    } else {
        private_pairs_from(dispatches, index + 1, found)
    }
}

fn add_private_shards(
    found: &mut OrderedMap<(String, (String, (usize, (usize, usize)))), usize>,
    producer: &VulkanDistributedDispatchPlan,
    consumer: &VulkanDistributedDispatchPlan,
) -> (outcome: Result<(), VulkanDistributedPlanError>)
    ensures
        match outcome {
            Ok(_) => private_shards_from(
                producer.deep_view(),
                consumer.deep_view(),
                0,
                old(found).deep_view(),
            ) == Ok::<PrivateBytesModel, Seq<char>>(final(found).deep_view()),
            Err(error) => private_shards_from(
                producer.deep_view(),
                consumer.deep_view(),
                0,
                old(found).deep_view(),
            ) == Err::<PrivateBytesModel, Seq<char>>(error.0@),
        },
{
    let ghost from = producer.deep_view();
    let ghost to = consumer.deep_view();
    let mut index: usize = 0;
    while index < producer.shards.len() && index < consumer.shards.len()
        invariant
            from == producer.deep_view(),
            to == consumer.deep_view(),
            index <= producer.shards.len(),
            private_shards_from(from, to, 0, old(found).deep_view()) == private_shards_from(
                from,
                to,
                index as nat,
                found.deep_view(),
            ),
        decreases producer.shards.len() - index,
    {
        let shard = &producer.shards[index];
        assert(from.shards[index as int] == shard.deep_view());
        let activation = &producer.output_activation;
        let replaced = found.insert(
            (
                shard.device_id.clone(),
                (
                    activation.component_id.clone(),
                    (activation.slot, (producer.dispatch_index, consumer.dispatch_index)),
                ),
            ),
            shard.output_byte_count,
        );
        match replaced {
            None => {},
            Some(existing) => {
                if existing != shard.output_byte_count {
                    return Err(
                        VulkanDistributedPlanError(
                            join8(
                                "physical execution private intermediate ",
                                activation.component_id.as_str(),
                                ".slot_",
                                decimal(activation.slot).as_str(),
                                " has conflicting capacities ",
                                decimal(existing).as_str(),
                                " and ",
                                decimal(shard.output_byte_count).as_str(),
                            ),
                        ),
                    );
                }
            },
        }
        index += 1;
    }
    Ok(())
}

fn resolve_private(dispatches: &Vec<VulkanDistributedDispatchPlan>) -> (outcome: Result<
    OrderedMap<(String, (String, (usize, (usize, usize)))), usize>,
    VulkanDistributedPlanError,
>)
    ensures
        plan_agrees(outcome, private_pairs_from(dispatches.deep_view(), 0, Map::empty())),
{
    let ghost all = dispatches.deep_view();
    let mut found: OrderedMap<(String, (String, (usize, (usize, usize)))), usize> =
        OrderedMap::new();
    let mut index: usize = 0;
    while index < dispatches.len() && dispatches.len() - index > 1
        invariant
            all == dispatches.deep_view(),
            index <= dispatches.len(),
            private_pairs_from(all, 0, Map::empty()) == private_pairs_from(
                all,
                index as nat,
                found.deep_view(),
            ),
        decreases dispatches.len() - index,
    {
        assert(all[index as int] == dispatches@[index as int].deep_view());
        assert(all[index as int + 1] == dispatches@[index as int + 1].deep_view());
        if dense_local_shard_handoff(&dispatches[index], &dispatches[index + 1]) {
            match add_private_shards(&mut found, &dispatches[index], &dispatches[index + 1]) {
                Err(error) => {
                    return Err(error);
                },
                Ok(_) => {},
            }
        }
        index += 1;
    }
    Ok(found)
}

/// The text of a storage.
pub open spec fn storage_text(storage: VulkanDistributedActivationStorageModel) -> Seq<char> {
    match storage {
        VulkanDistributedActivationStorageModel::ActivationSlot => "ActivationSlot"@,
        VulkanDistributedActivationStorageModel::BoundaryInput => "BoundaryInput"@,
        VulkanDistributedActivationStorageModel::BoundaryOutput => "BoundaryOutput"@,
        VulkanDistributedActivationStorageModel::Edge { edge_index, owner_device_id } =>
            "Edge { edge_index: "@ + decimal_text(edge_index as nat) + ", owner_device_id: "@
            + debug_text(owner_device_id) + " }"@,
    }
}

fn written_storage(storage: &VulkanDistributedActivationStorage) -> (text: String)
    ensures
        text@ == storage_text(storage.deep_view()),
{
    match storage {
        VulkanDistributedActivationStorage::ActivationSlot => "ActivationSlot".to_owned(),
        VulkanDistributedActivationStorage::BoundaryInput => "BoundaryInput".to_owned(),
        VulkanDistributedActivationStorage::BoundaryOutput => "BoundaryOutput".to_owned(),
        VulkanDistributedActivationStorage::Edge { edge_index, owner_device_id } => join5(
            "Edge { edge_index: ",
            decimal(*edge_index).as_str(),
            ", owner_device_id: ",
            quoted(owner_device_id.as_str()).as_str(),
            " }",
        ),
    }
}

/// The transient memory of a shared activation.
pub open spec fn shared_memory(
    entry: (
        (Seq<char>, (VulkanDistributedActivationStorageModel, (Seq<char>, usize))),
        usize,
    ),
) -> VulkanPhysicalExecutionTransientMemoryRequirementModel {
    VulkanPhysicalExecutionTransientMemoryRequirementModel {
        allocation_device_id: entry.0.0,
        kind: VulkanPhysicalExecutionTransientMemoryKind::SharedActivationAllocation,
        resource_id: "activation:"@ + storage_text(entry.0.1.0) + ":"@ + entry.0.1.1.0 + ":slot_"@
            + decimal_text(entry.0.1.1.1 as nat),
        fixed_byte_capacity: 0,
        per_lane_byte_capacity: entry.1,
    }
}

/// The transient memory of a private intermediate.
pub open spec fn private_memory(
    entry: ((Seq<char>, (Seq<char>, (usize, (usize, usize)))), usize),
) -> VulkanPhysicalExecutionTransientMemoryRequirementModel {
    VulkanPhysicalExecutionTransientMemoryRequirementModel {
        allocation_device_id: entry.0.0,
        kind: VulkanPhysicalExecutionTransientMemoryKind::PrivateShardIntermediate,
        resource_id: "private_activation:"@ + entry.0.1.0 + ":slot_"@ + decimal_text(
            entry.0.1.1.0 as nat,
        ) + ":"@ + decimal_text(entry.0.1.1.1.0 as nat) + "->"@ + decimal_text(
            entry.0.1.1.1.1 as nat,
        ),
        fixed_byte_capacity: 0,
        per_lane_byte_capacity: entry.1,
    }
}

/// The transient memory of an island: shared activations, then private
/// intermediates.
pub open spec fn island_memory(demand: IslandDemandModel, private: PrivateBytesModel) -> Seq<
    VulkanPhysicalExecutionTransientMemoryRequirementModel,
> {
    ordered_listing::<(String, (VulkanDistributedActivationStorage, (String, usize))), usize>(
        demand.activations,
    ).map_values(
        |entry: (
            (Seq<char>, (VulkanDistributedActivationStorageModel, (Seq<char>, usize))),
            usize,
        )|
            shared_memory(entry),
    ) + ordered_listing::<(String, (String, (usize, (usize, usize)))), usize>(private).map_values(
        |entry: ((Seq<char>, (Seq<char>, (usize, (usize, usize)))), usize)| private_memory(entry),
    )
}

fn list_memory(
    activations: &OrderedMap<
        (String, (VulkanDistributedActivationStorage, (String, usize))),
        usize,
    >,
    private: &OrderedMap<(String, (String, (usize, (usize, usize)))), usize>,
    Ghost(demand): Ghost<IslandDemandModel>,
) -> (memory: Vec<VulkanPhysicalExecutionTransientMemoryRequirement>)
    requires
        demand.activations == activations.deep_view(),
    ensures
        memory.deep_view() == island_memory(demand, private.deep_view()),
{
    let ghost shared = activations.listing().map_values(
        |entry: (
            (Seq<char>, (VulkanDistributedActivationStorageModel, (Seq<char>, usize))),
            usize,
        )|
            shared_memory(entry),
    );
    let ghost owned = private.listing().map_values(
        |entry: ((Seq<char>, (Seq<char>, (usize, (usize, usize)))), usize)| private_memory(entry),
    );
    let shared_count: usize = activations.len();
    let mut memory: Vec<VulkanPhysicalExecutionTransientMemoryRequirement> = Vec::new();
    assert(memory.deep_view() =~= shared.take(0));
    for index in 0..shared_count
        invariant
            shared_count == activations.listing().len(),
            shared.len() == shared_count,
            forall|i: int|
                0 <= i < shared_count ==> #[trigger] shared[i] == shared_memory(
                    activations.listing()[i],
                ),
            memory.deep_view() == shared.take(index as int),
    {
        let key = activations.key_at(index);
        append(
            &mut memory,
            VulkanPhysicalExecutionTransientMemoryRequirement {
                allocation_device_id: key.0.clone(),
                kind: VulkanPhysicalExecutionTransientMemoryKind::SharedActivationAllocation,
                resource_id: crate::text::join6(
                    "activation:",
                    written_storage(&key.1.0).as_str(),
                    ":",
                    key.1.1.0.as_str(),
                    ":slot_",
                    decimal(key.1.1.1).as_str(),
                ),
                fixed_byte_capacity: 0,
                per_lane_byte_capacity: *activations.value_at(index),
            },
        );
        assert(shared.take(index as int + 1) =~= shared.take(index as int).push(
            shared[index as int],
        ));
    }
    assert(shared.take(shared.len() as int) =~= shared);
    let private_count: usize = private.len();
    assert(shared =~= shared + owned.take(0));
    for index in 0..private_count
        invariant
            private_count == private.listing().len(),
            owned.len() == private_count,
            forall|i: int|
                0 <= i < private_count ==> #[trigger] owned[i] == private_memory(
                    private.listing()[i],
                ),
            memory.deep_view() == shared + owned.take(index as int),
    {
        let key = private.key_at(index);
        append(
            &mut memory,
            VulkanPhysicalExecutionTransientMemoryRequirement {
                allocation_device_id: key.0.clone(),
                kind: VulkanPhysicalExecutionTransientMemoryKind::PrivateShardIntermediate,
                resource_id: join8(
                    "private_activation:",
                    key.1.0.as_str(),
                    ":slot_",
                    decimal(key.1.1.0).as_str(),
                    ":",
                    decimal(key.1.1.1.0).as_str(),
                    "->",
                    decimal(key.1.1.1.1).as_str(),
                ),
                fixed_byte_capacity: 0,
                per_lane_byte_capacity: *private.value_at(index),
            },
        );
        assert(memory.deep_view() =~= shared + owned.take(index as int + 1));
    }
    assert(owned.take(owned.len() as int) =~= owned);
    memory
}

/// The member nodes of the contracts of dispatches, dispatch by dispatch.
pub open spec fn all_member_nodes(dispatches: Seq<VulkanDistributedDispatchPlanModel>) -> Seq<
    Seq<char>,
>
    decreases dispatches.len(),
{
    if dispatches.len() == 0 {
        Seq::empty()
    } else {
        all_member_nodes(dispatches.drop_last()) + dispatches.last().contract_member_node_ids
    }
}

/// The contracts of dispatches.
pub open spec fn all_contract_ids(dispatches: Seq<VulkanDistributedDispatchPlanModel>) -> Seq<
    Seq<char>,
> {
    Seq::new(dispatches.len(), |i: int| dispatches[i].physical_execution_contract_id)
}

/// The implementations of dispatches.
pub open spec fn all_digests(dispatches: Seq<VulkanDistributedDispatchPlanModel>) -> Seq<
    Seq<char>,
> {
    Seq::new(dispatches.len(), |i: int| dispatches[i].implementation_digest)
}

fn list_member_nodes(dispatches: &Vec<VulkanDistributedDispatchPlan>) -> (nodes: Vec<String>)
    ensures
        nodes.deep_view() == all_member_nodes(dispatches.deep_view()),
{
    let ghost all = dispatches.deep_view();
    let mut nodes: Vec<String> = Vec::new();
    assert(nodes.deep_view() =~= Seq::empty());
    for index in 0..dispatches.len()
        invariant
            all == dispatches.deep_view(),
            nodes.deep_view() == all_member_nodes(all.take(index as int)),
    {
        assert(all.take(index as int + 1).drop_last() =~= all.take(index as int));
        assert(all[index as int] == dispatches@[index as int].deep_view());
        append_all(&mut nodes, &dispatches[index].contract_member_node_ids);
    }
    assert(all.take(all.len() as int) =~= all);
    nodes
}

fn list_contract_ids(dispatches: &Vec<VulkanDistributedDispatchPlan>) -> (ids: Vec<String>)
    ensures
        ids.deep_view() == all_contract_ids(dispatches.deep_view()),
{
    let mut ids: Vec<String> = Vec::new();
    for index in 0..dispatches.len()
        invariant
            ids.len() == index,
            forall|i: int|
                0 <= i < index ==> (#[trigger] ids@[i])@
                    == dispatches@[i].physical_execution_contract_id@,
    {
        ids.push(dispatches[index].physical_execution_contract_id.clone());
    }
    assert(ids.deep_view() =~= all_contract_ids(dispatches.deep_view()));
    ids
}

fn list_digests(dispatches: &Vec<VulkanDistributedDispatchPlan>) -> (digests: Vec<String>)
    ensures
        digests.deep_view() == all_digests(dispatches.deep_view()),
{
    let mut digests: Vec<String> = Vec::new();
    for index in 0..dispatches.len()
        invariant
            digests.len() == index,
            forall|i: int|
                0 <= i < index ==> (#[trigger] digests@[i])@
                    == dispatches@[i].implementation_digest@,
    {
        digests.push(dispatches[index].implementation_digest.clone());
    }
    assert(digests.deep_view() =~= all_digests(dispatches.deep_view()));
    digests
}

/// Some dispatch belongs to another owner or component than the first.
pub open spec fn crosses_boundary(dispatches: Seq<VulkanDistributedDispatchPlanModel>) -> bool {
    exists|i: int|
        0 <= i < dispatches.len() && ((#[trigger] dispatches[i]).owner_device_id
            != dispatches[0].owner_device_id || dispatches[i].component_id
            != dispatches[0].component_id)
}

/// Some dispatch needs lazy resources that no partition resolves.
pub open spec fn lacks_residency(dispatches: Seq<VulkanDistributedDispatchPlanModel>) -> bool {
    exists|i: int|
        0 <= i < dispatches.len() && (#[trigger] dispatches[i]).has_lazy_resource_requirements
            && dispatches[i].selected_resource_partitions.len() == 0
}

/// The island that dispatches form, or the text of the error.
pub open spec fn resolved_island(
    island_index: usize,
    dispatches: Seq<VulkanDistributedDispatchPlanModel>,
    route: VulkanSharedResidentBufferRoute,
    phase: ExecutionPhase,
) -> Result<VulkanPhysicalExecutionIslandPlanModel, Seq<char>> {
    if dispatches.len() == 0 {
        Err("physical execution island must not be empty"@)
    } else if crosses_boundary(dispatches) {
        Err("physical execution island crosses an owner or logical component boundary"@)
    } else if lacks_residency(dispatches) {
        Err(
            "physical execution island for component "@ + debug_text(dispatches[0].component_id)
                + " contains lazy resources without a resolved atomic residency plan"@,
        )
    } else {
        match island_demand(dispatches) {
            Err(message) => Err(message),
            Ok(demand) => match private_pairs_from(dispatches, 0, Map::empty()) {
                Err(message) => Err(message),
                Ok(private) => Ok(
                    assembled_island(island_index, dispatches, route, phase, demand, private),
                ),
            },
        }
    }
}

/// The island of dispatches whose demand is resolved.
pub open spec fn assembled_island(
    island_index: usize,
    dispatches: Seq<VulkanDistributedDispatchPlanModel>,
    route: VulkanSharedResidentBufferRoute,
    phase: ExecutionPhase,
    demand: IslandDemandModel,
    private: PrivateBytesModel,
) -> VulkanPhysicalExecutionIslandPlanModel {
    let first = dispatches[0];
    let tail = dispatches.last();
    let owner = first.owner_device_id;
    let workers = island_workers(dispatches);
    let participants = island_participants(owner, workers);
    let entry = activation_owner(owner, first.input_activation);
    let exit = activation_owner(owner, tail.output_activation);
    VulkanPhysicalExecutionIslandPlanModel {
        island_id: first.component_id + ":"@ + decimal_text(first.dispatch_index as nat) + "-"@
            + decimal_text(tail.dispatch_index as nat) + ":island_"@ + decimal_text(
            island_index as nat,
        ),
        component_id: first.component_id,
        member_node_ids: distinct(all_member_nodes(dispatches)),
        contract_ids: distinct(all_contract_ids(dispatches)),
        implementation_digests: distinct(all_digests(dispatches)),
        phase_schedules: seq![
            VulkanPhysicalExecutionPhaseScheduleModel {
                phase,
                steps: island_schedule(dispatches, exit),
            },
        ],
        entry_device_id: entry,
        exit_device_id: exit,
        owner_device_id: owner,
        participants,
        shard_assignments: island_assignments(dispatches),
        transport_routes: island_transport(
            participants,
            entry,
            exit,
            first.input_byte_capacity,
            tail.output_byte_capacity,
            route,
        ),
        synchronization_routes: island_synchronization(owner, workers),
        residency: island_residency(demand),
        transient_memory: island_memory(demand, private),
        dispatches,
    }
}

/// Resolves the island that dispatches form.
pub fn resolved_physical_execution_island(
    island_index: usize,
    dispatches: Vec<VulkanDistributedDispatchPlan>,
    shared_activation_route: VulkanSharedResidentBufferRoute,
    phase: ExecutionPhase,
) -> (outcome: Result<VulkanPhysicalExecutionIslandPlan, VulkanDistributedPlanError>)
    ensures
        plan_agrees(
            outcome,
            resolved_island(island_index, dispatches.deep_view(), shared_activation_route, phase),
        ),
{
    let ghost all = dispatches.deep_view();
    if dispatches.len() == 0 {
        return Err(
            VulkanDistributedPlanError("physical execution island must not be empty".to_owned()),
        );
    }
    assert(all[0] == dispatches@[0].deep_view());
    for index in 0..dispatches.len()
        invariant
            all == dispatches.deep_view(),
            all.len() > 0,
            all[0] == dispatches@[0].deep_view(),
            forall|i: int|
                0 <= i < index ==> (#[trigger] all[i]).owner_device_id == all[0].owner_device_id
                    && all[i].component_id == all[0].component_id,
    {
        assert(all[index as int] == dispatches@[index as int].deep_view());
        if dispatches[index].owner_device_id != dispatches[0].owner_device_id
            || dispatches[index].component_id != dispatches[0].component_id {
            return Err(
                VulkanDistributedPlanError(
                    "physical execution island crosses an owner or logical component boundary".to_owned(),
                ),
            );
        }
    }
    for index in 0..dispatches.len()
        invariant
            all == dispatches.deep_view(),
            all.len() > 0,
            all[0] == dispatches@[0].deep_view(),
            !crosses_boundary(all),
            forall|i: int|
                0 <= i < index ==> !((#[trigger] all[i]).has_lazy_resource_requirements
                    && all[i].selected_resource_partitions.len() == 0),
    {
        assert(all[index as int] == dispatches@[index as int].deep_view());
        if dispatches[index].has_lazy_resource_requirements
            && dispatches[index].selected_resource_partitions.len() == 0 {
            return Err(
                VulkanDistributedPlanError(
                    join3(
                        "physical execution island for component ",
                        quoted(dispatches[0].component_id.as_str()).as_str(),
                        " contains lazy resources without a resolved atomic residency plan",
                    ),
                ),
            );
        }
    }
    let demand = match resolve_demand(&dispatches) {
        Err(error) => {
            return Err(error);
        },
        Ok(demand) => demand,
    };
    let ghost demand_model = island_demand(all)->Ok_0;
    proof {
        lemma_demand_fits(
            all,
            0,
            IslandDemandModel {
                residency: Map::empty(),
                activations: Map::empty(),
                parameter_bytes: Map::empty(),
            },
            private_producers(all),
            private_consumers(all),
        );
    }
    let private = match resolve_private(&dispatches) {
        Err(error) => {
            return Err(error);
        },
        Ok(private) => private,
    };
    let last: usize = dispatches.len() - 1;
    assert(all.last() == dispatches@[last as int].deep_view());
    let first = &dispatches[0];
    let tail = &dispatches[last];
    let owner_device_id = first.owner_device_id.clone();
    let component_id = first.component_id.clone();
    let workers = list_workers(&dispatches);
    let participants = list_participants(&owner_device_id, &workers);
    let entry_device_id = distributed_activation_owner_device_id(
        &owner_device_id,
        &first.input_activation,
    );
    let exit_device_id = distributed_activation_owner_device_id(
        &owner_device_id,
        &tail.output_activation,
    );
    let transport_routes = list_transport(
        &participants,
        &entry_device_id,
        &exit_device_id,
        first.input_byte_capacity,
        tail.output_byte_capacity,
        shared_activation_route,
    );
    let synchronization_routes = list_synchronization(&owner_device_id, &workers);
    let mut phase_schedules: Vec<VulkanPhysicalExecutionPhaseSchedule> = Vec::new();
    append(
        &mut phase_schedules,
        VulkanPhysicalExecutionPhaseSchedule {
            phase,
            steps: list_schedule(&dispatches, &exit_device_id),
        },
    );
    assert(phase_schedules.deep_view() =~= seq![
        VulkanPhysicalExecutionPhaseScheduleModel {
            phase,
            steps: island_schedule(all, exit_device_id@),
        },
    ]);
    let island_id = join7(
        component_id.as_str(),
        ":",
        decimal(first.dispatch_index).as_str(),
        "-",
        decimal(tail.dispatch_index).as_str(),
        ":island_",
        decimal(island_index).as_str(),
    );
    let residency = list_residency(
        &demand.parameter_bytes,
        &demand.residency,
        Ghost(demand_model),
    );
    let transient_memory = list_memory(&demand.activations, &private, Ghost(demand_model));
    let shard_assignments = list_assignments(&dispatches);
    let member_nodes = list_member_nodes(&dispatches);
    let contract_ids = list_contract_ids(&dispatches);
    let digests = list_digests(&dispatches);
    Ok(
        VulkanPhysicalExecutionIslandPlan {
            island_id,
            component_id,
            member_node_ids: distinct_values(&member_nodes),
            contract_ids: distinct_values(&contract_ids),
            implementation_digests: distinct_values(&digests),
            phase_schedules,
            entry_device_id,
            exit_device_id,
            owner_device_id,
            participants,
            shard_assignments,
            transport_routes,
            synchronization_routes,
            residency,
            transient_memory,
            dispatches,
        },
    )
}

/// The dispatches in groups: a dispatch joins the one before it where both can
/// execute in one recorded sequence.
pub open spec fn sequence_groups(dispatches: Seq<VulkanDistributedDispatchPlanModel>) -> Seq<
    Seq<VulkanDistributedDispatchPlanModel>,
>
    decreases dispatches.len(),
{
    if dispatches.len() == 0 {
        Seq::empty()
    } else {
        let groups = sequence_groups(dispatches.drop_last());
        let dispatch = dispatches.last();
        if groups.len() > 0 && groups.last().len() > 0 && shares_sequence(
            groups.last().last(),
            dispatch,
        ) {
            groups.drop_last().push(groups.last().push(dispatch))
        } else {
            groups.push(seq![dispatch])
        }
    }
}

/// The islands of groups from an index on, behind those found already; or the text
/// of the error.
pub open spec fn islands_from(
    groups: Seq<Seq<VulkanDistributedDispatchPlanModel>>,
    route: VulkanSharedResidentBufferRoute,
    phase: ExecutionPhase,
    index: nat,
    found: Seq<VulkanPhysicalExecutionIslandPlanModel>,
) -> Result<Seq<VulkanPhysicalExecutionIslandPlanModel>, Seq<char>>
    decreases groups.len() - index,
{
    if index >= groups.len() {
        Ok(found)
    } else {
        match resolved_island(index as usize, groups[index as int], route, phase) {
            Err(message) => Err(message),
            Ok(island) => islands_from(groups, route, phase, index + 1, found.push(island)),
        }
    }
}

/// The islands of dispatches in a phase, or the text of the error.
pub open spec fn resolved_islands(
    dispatches: Seq<VulkanDistributedDispatchPlanModel>,
    route: VulkanSharedResidentBufferRoute,
    phase: ExecutionPhase,
) -> Result<Seq<VulkanPhysicalExecutionIslandPlanModel>, Seq<char>> {
    islands_from(sequence_groups(dispatches), route, phase, 0, Seq::empty())
}

fn group_dispatches(dispatches: &[VulkanDistributedDispatchPlan]) -> (groups: Vec<
    Vec<VulkanDistributedDispatchPlan>,
>)
    ensures
        groups.deep_view() == sequence_groups(dispatches.deep_view()),
{
    let ghost all = dispatches.deep_view();
    let mut groups: Vec<Vec<VulkanDistributedDispatchPlan>> = Vec::new();
    assert(groups.deep_view() =~= Seq::empty());
    for index in 0..dispatches.len()
        invariant
            all == dispatches.deep_view(),
            groups.deep_view() == sequence_groups(all.take(index as int)),
    {
        assert(all.take(index as int + 1).drop_last() =~= all.take(index as int));
        let dispatch = &dispatches[index];
        assert(all[index as int] == dispatch.deep_view());
        let ghost before = groups.deep_view();
        let last_group = groups.pop();
        match last_group {
            None => {
                assert(groups.deep_view() =~= before);
                let mut group: Vec<VulkanDistributedDispatchPlan> = Vec::new();
                append(&mut group, dispatch.duplicate());
                assert(group.deep_view() =~= seq![dispatch.deep_view()]);
                append(&mut groups, group);
            },
            Some(group) => {
                assert(groups.deep_view() =~= before.drop_last());
                assert(group.deep_view() == before.last());
                let mut group = group;
                let shares: bool = if group.len() == 0 {
                    false
                } else {
                    let last: usize = group.len() - 1;
                    assert(group.deep_view().last() == group@[last as int].deep_view());
                    distributed_dispatches_can_share_sequence(&group[last], dispatch)
                };
                if shares {
                    append(&mut group, dispatch.duplicate());
                    append(&mut groups, group);
                } else {
                    append(&mut groups, group);
                    assert(groups.deep_view() =~= before);
                    let mut single: Vec<VulkanDistributedDispatchPlan> = Vec::new();
                    append(&mut single, dispatch.duplicate());
                    assert(single.deep_view() =~= seq![dispatch.deep_view()]);
                    append(&mut groups, single);
                }
            },
        }
    }
    assert(all.take(all.len() as int) =~= all);
    groups
}

/// Resolves the islands of dispatches in the decode phase.
pub fn resolved_physical_execution_islands(
    dispatches: &[VulkanDistributedDispatchPlan],
    shared_activation_route: VulkanSharedResidentBufferRoute,
) -> (outcome: Result<Vec<VulkanPhysicalExecutionIslandPlan>, VulkanDistributedPlanError>)
    ensures
        plan_agrees(
            outcome,
            resolved_islands(
                dispatches.deep_view(),
                shared_activation_route,
                ExecutionPhase::Decode,
            ),
        ),
{
    resolved_physical_execution_islands_for_phase(
        dispatches,
        shared_activation_route,
        ExecutionPhase::Decode,
    )
}

/// Resolves the islands of dispatches in a phase.
pub fn resolved_physical_execution_islands_for_phase(
    dispatches: &[VulkanDistributedDispatchPlan],
    shared_activation_route: VulkanSharedResidentBufferRoute,
    phase: ExecutionPhase,
) -> (outcome: Result<Vec<VulkanPhysicalExecutionIslandPlan>, VulkanDistributedPlanError>)
    ensures
        plan_agrees(
            outcome,
            resolved_islands(dispatches.deep_view(), shared_activation_route, phase),
        ),
{
    let groups = group_dispatches(dispatches);
    let ghost all = groups.deep_view();
    let mut islands: Vec<VulkanPhysicalExecutionIslandPlan> = Vec::new();
    assert(islands.deep_view() =~= Seq::empty());
    for index in 0..groups.len()
        invariant
            all == groups.deep_view(),
            all == sequence_groups(dispatches.deep_view()),
            resolved_islands(dispatches.deep_view(), shared_activation_route, phase)
                == islands_from(
                all,
                shared_activation_route,
                phase,
                index as nat,
                islands.deep_view(),
            ),
    {
        assert(all[index as int] == groups@[index as int].deep_view());
        match resolved_physical_execution_island(
            index,
            groups[index].duplicate(),
            shared_activation_route,
            phase,
        ) {
            Err(error) => {
                return Err(error);
            },
            Ok(island) => {
                append(&mut islands, island);
            },
        }
    }
    Ok(islands)
}

impl VulkanPhysicalExecutionIslandPlan {
    /// The dispatch that starts the island.
    pub fn leader(&self) -> (dispatch: &VulkanDistributedDispatchPlan)
        requires
            self.dispatches.len() > 0,
        ensures
            *dispatch == self.dispatches@[0],
            dispatch.deep_view() == self.deep_view().dispatches[0],
    {
        &self.dispatches[0]
    }

    /// The dispatch that ends the island.
    pub fn tail(&self) -> (dispatch: &VulkanDistributedDispatchPlan)
        requires
            self.dispatches.len() > 0,
        ensures
            *dispatch == self.dispatches@.last(),
            dispatch.deep_view() == self.deep_view().dispatches.last(),
    {
        &self.dispatches[self.dispatches.len() - 1]
    }

    /// Whether a dispatch of the index belongs to the island.
    pub fn contains_dispatch(&self, dispatch_index: usize) -> (result: bool)
        ensures
            result == (exists|i: int|
                0 <= i < self.dispatches.len() && (
                #[trigger] self.dispatches@[i]).dispatch_index == dispatch_index),
    {
        for index in 0..self.dispatches.len()
            invariant
                forall|i: int|
                    0 <= i < index ==> (#[trigger] self.dispatches@[i]).dispatch_index
                        != dispatch_index,
        {
            if self.dispatches[index].dispatch_index == dispatch_index {
                return true;
            }
        }
        false
    }

    /// The indices of the dispatches of the island, in their order.
    pub fn dispatch_indices(&self) -> (indices: Vec<usize>)
        ensures
            indices.len() == self.dispatches.len(),
            forall|i: int|
                0 <= i < indices.len() ==> #[trigger] indices@[i]
                    == self.dispatches@[i].dispatch_index,
    {
        let mut indices: Vec<usize> = Vec::new();
        for index in 0..self.dispatches.len()
            invariant
                indices.len() == index,
                forall|i: int|
                    0 <= i < index ==> #[trigger] indices@[i]
                        == self.dispatches@[i].dispatch_index,
        {
            indices.push(self.dispatches[index].dispatch_index);
        }
        indices
    }
}

/// The items of groups, group by group.
pub open spec fn flattened<T>(groups: Seq<Seq<T>>) -> Seq<T>
    decreases groups.len(),
{
    if groups.len() == 0 {
        Seq::empty()
    } else {
        flattened(groups.drop_last()) + groups.last()
    }
}

/// Grouping keeps every dispatch once and in its order, and no group is empty.
pub proof fn law_groups_partition_the_dispatches(
    dispatches: Seq<VulkanDistributedDispatchPlanModel>,
)
    ensures
        flattened(sequence_groups(dispatches)) == dispatches,
        forall|i: int|
            0 <= i < sequence_groups(dispatches).len() ==> (
            #[trigger] sequence_groups(dispatches)[i]).len() > 0,
    decreases dispatches.len(),
{
    let groups = sequence_groups(dispatches);
    if dispatches.len() == 0 {
        assert(flattened(groups) =~= dispatches);
    } else {
        let before = sequence_groups(dispatches.drop_last());
        let dispatch = dispatches.last();
        law_groups_partition_the_dispatches(dispatches.drop_last());
        assert(dispatches =~= dispatches.drop_last().push(dispatch));
        if before.len() > 0 && before.last().len() > 0 && shares_sequence(
            before.last().last(),
            dispatch,
        ) {
            let joined = before.last().push(dispatch);
            assert(groups.drop_last() =~= before.drop_last());
            assert(groups.last() == joined);
            assert(flattened(before) == flattened(before.drop_last()) + before.last());
            assert(flattened(groups) =~= dispatches);
            assert forall|i: int| 0 <= i < groups.len() implies (#[trigger] groups[i]).len() > 0 by {
                if i < groups.len() - 1 {
                    assert(groups[i] == before[i]);
                }
            }
        } else {
            assert(groups.drop_last() =~= before);
            assert(flattened(groups) =~= dispatches);
            assert forall|i: int| 0 <= i < groups.len() implies (#[trigger] groups[i]).len() > 0 by {
                if i < groups.len() - 1 {
                    assert(groups[i] == before[i]);
                }
            }
        }
    }
}

/// Within a group every dispatch can execute in one sequence with the one before
/// it.
pub proof fn law_grouped_dispatches_share_a_sequence(
    dispatches: Seq<VulkanDistributedDispatchPlanModel>,
    group: int,
    index: int,
)
    requires
        0 <= group < sequence_groups(dispatches).len(),
        0 <= index < sequence_groups(dispatches)[group].len() - 1,
    ensures
        shares_sequence(
            sequence_groups(dispatches)[group][index],
            sequence_groups(dispatches)[group][index + 1],
        ),
    decreases dispatches.len(),
{
    let groups = sequence_groups(dispatches);
    let before = sequence_groups(dispatches.drop_last());
    let dispatch = dispatches.last();
    if before.len() > 0 && before.last().len() > 0 && shares_sequence(
        before.last().last(),
        dispatch,
    ) {
        if group < groups.len() - 1 {
            assert(groups[group] == before[group]);
            law_grouped_dispatches_share_a_sequence(dispatches.drop_last(), group, index);
        } else if index < before.last().len() - 1 {
            law_grouped_dispatches_share_a_sequence(dispatches.drop_last(), group, index);
        }
    } else if group < groups.len() - 1 {
        assert(groups[group] == before[group]);
        law_grouped_dispatches_share_a_sequence(dispatches.drop_last(), group, index);
    }
}

proof fn lemma_islands_keep_groups(
    groups: Seq<Seq<VulkanDistributedDispatchPlanModel>>,
    route: VulkanSharedResidentBufferRoute,
    phase: ExecutionPhase,
    index: nat,
    found: Seq<VulkanPhysicalExecutionIslandPlanModel>,
)
    requires
        index <= groups.len(),
        found.len() == index,
        forall|i: int| 0 <= i < index ==> (#[trigger] found[i]).dispatches == groups[i],
        islands_from(groups, route, phase, index, found) is Ok,
    ensures
        ({
            let islands = islands_from(groups, route, phase, index, found)->Ok_0;
            &&& islands.len() == groups.len()
            &&& forall|i: int|
                0 <= i < islands.len() ==> (#[trigger] islands[i]).dispatches == groups[i]
        }),
    decreases groups.len() - index,
{
    if index < groups.len() {
        let island = resolved_island(index as usize, groups[index as int], route, phase);
        assert(island is Ok);
        assert(island->Ok_0.dispatches == groups[index as int]);
        lemma_islands_keep_groups(groups, route, phase, index + 1, found.push(island->Ok_0));
    }
}

/// The dispatches of islands, island by island.
pub open spec fn island_dispatches(islands: Seq<VulkanPhysicalExecutionIslandPlanModel>) -> Seq<
    VulkanDistributedDispatchPlanModel,
> {
    flattened(Seq::new(islands.len(), |i: int| islands[i].dispatches))
}

/// Resolved islands hold every dispatch once and in its order, and none of them is
/// empty, so that each has a leader and a tail.
pub proof fn law_islands_partition_the_dispatches(
    dispatches: Seq<VulkanDistributedDispatchPlanModel>,
    route: VulkanSharedResidentBufferRoute,
    phase: ExecutionPhase,
)
    requires
        resolved_islands(dispatches, route, phase) is Ok,
    ensures
        island_dispatches(resolved_islands(dispatches, route, phase)->Ok_0) == dispatches,
        forall|i: int|
            0 <= i < resolved_islands(dispatches, route, phase)->Ok_0.len() ==> (
            #[trigger] resolved_islands(dispatches, route, phase)->Ok_0[i]).dispatches.len() > 0,
{
    let groups = sequence_groups(dispatches);
    let islands = resolved_islands(dispatches, route, phase)->Ok_0;
    law_groups_partition_the_dispatches(dispatches);
    lemma_islands_keep_groups(groups, route, phase, 0, Seq::empty());
    assert(Seq::new(islands.len(), |i: int| islands[i].dispatches) =~= groups);
    assert forall|i: int| 0 <= i < islands.len() implies (
    #[trigger] islands[i]).dispatches.len() > 0 by {
        assert(islands[i].dispatches == groups[i]);
    }
}

/// The steps of a schedule are numbered in their order; the first publishes the
/// inputs, the last collects the outputs at the exit, and between them every
/// dispatch executes once, in its order.
pub proof fn law_schedules_publish_execute_and_collect(
    dispatches: Seq<VulkanDistributedDispatchPlanModel>,
    exit_device_id: Seq<char>,
    index: int,
)
    requires
        0 < dispatches.len() < usize::MAX,
        0 <= index < island_schedule(dispatches, exit_device_id).len(),
    ensures
        ({
            let steps = island_schedule(dispatches, exit_device_id);
            &&& steps.len() == dispatches.len() + 2
            &&& steps[index].ordinal == index
            &&& steps[index].kind is PublishInputs <==> index == 0
            &&& steps[index].kind is CollectOutputs <==> index == steps.len() - 1
            &&& 0 < index < steps.len() - 1 ==> steps[index].dispatch_index == dispatches[index
                - 1].dispatch_index
            &&& steps.last().device_ids == seq![exit_device_id]
        }),
{
}

} // verus!
