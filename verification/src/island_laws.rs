//! Laws of physical execution islands.
use vstd::prelude::*;

use crate::contracts::ExecutionPhase;
use crate::dispatch_shards::VulkanDistributedDispatchShardModel;
use crate::execution_plans::{
    VulkanDistributedActivationSlotModel, VulkanDistributedActivationStorageModel,
    VulkanDistributedDispatchPlanModel, VulkanPhysicalExecutionIslandPlanModel,
    VulkanPhysicalExecutionParticipantModel, VulkanPhysicalExecutionParticipantRole,
    VulkanPhysicalExecutionResidencyKind, VulkanPhysicalExecutionResidencyRequirementModel,
    VulkanPhysicalExecutionScheduleStepModel, VulkanPhysicalExecutionShardAssignmentModel,
    VulkanPhysicalExecutionSynchronizationRouteModel,
    VulkanPhysicalExecutionTransportRouteModel, VulkanSharedResidentBufferRoute,
};
use crate::island_plans::{
    law_grouped_dispatches_share_a_sequence, private_pairs_from, private_shards_from,
    resolved_island, sequence_groups, PrivateBytesModel,
};
use crate::islands::{
    demand_step, fragment_bytes, hands_off_locally, island_assignments, island_demand,
    island_workers, parameter_bytes_step, participant_roles, private_consumers, private_producers,
    residency_step, shard_device_ids, shard_parameter_bytes, shared_activation_step,
    shared_activations, shares_sequence, synchronized_pairs, transported_pairs, IslandDemandModel,
};
use crate::ordered::{
    lemma_listed_at, lemma_members_listed, lemma_ordered_listing_exists, lists_key,
    ordered_listing, ordered_members,
};
use crate::sequences::{fold_from, sum_of};

verus! {

/// The dispatches form an island.
pub open spec fn forms_island(
    island_index: usize,
    dispatches: Seq<VulkanDistributedDispatchPlanModel>,
    route: VulkanSharedResidentBufferRoute,
    phase: ExecutionPhase,
    island: VulkanPhysicalExecutionIslandPlanModel,
) -> bool {
    resolved_island(island_index, dispatches, route, phase) == Ok::<
        VulkanPhysicalExecutionIslandPlanModel,
        Seq<char>,
    >(island)
}

/// The device holds an activation: that of the edge where it is one, else the owner.
pub open spec fn is_held_by(
    activation: VulkanDistributedActivationSlotModel,
    owner_device_id: Seq<char>,
    device_id: Seq<char>,
) -> bool {
    if activation.storage is Edge {
        device_id == activation.storage->Edge_owner_device_id
    } else {
        device_id == owner_device_id
    }
}

/// An island belongs to the owner and the component of each of its dispatches; it is entered
/// where the input of the first one is held and left where the output of the last one is.
/// It has one schedule, for its phase.
pub proof fn law_islands_are_of_one_owner(
    island_index: usize,
    dispatches: Seq<VulkanDistributedDispatchPlanModel>,
    route: VulkanSharedResidentBufferRoute,
    phase: ExecutionPhase,
    island: VulkanPhysicalExecutionIslandPlanModel,
)
    requires
        forms_island(island_index, dispatches, route, phase, island),
    ensures
        dispatches.len() > 0,
        island.dispatches == dispatches,
        forall|i: int|
            0 <= i < dispatches.len() ==> (#[trigger] dispatches[i]).owner_device_id
                == island.owner_device_id && dispatches[i].component_id == island.component_id,
        forall|i: int|
            0 <= i < dispatches.len() && (
            #[trigger] dispatches[i]).has_lazy_resource_requirements
                ==> dispatches[i].selected_resource_partitions.len() > 0,
        is_held_by(
            dispatches.first().input_activation,
            island.owner_device_id,
            island.entry_device_id,
        ),
        is_held_by(
            dispatches.last().output_activation,
            island.owner_device_id,
            island.exit_device_id,
        ),
        island.phase_schedules.len() == 1,
        island.phase_schedules[0].phase == phase,
{
}

/// Some shard of the dispatches runs on a device.
pub open spec fn works_for(
    dispatches: Seq<VulkanDistributedDispatchPlanModel>,
    device_id: Seq<char>,
) -> bool {
    exists|d: int, s: int|
        #![trigger dispatches[d].shards[s]]
        0 <= d < dispatches.len() && 0 <= s < dispatches[d].shards.len()
            && dispatches[d].shards[s].device_id == device_id
}

proof fn lemma_workers(
    dispatches: Seq<VulkanDistributedDispatchPlanModel>,
    device_id: Seq<char>,
)
    ensures
        island_workers(dispatches).contains(device_id) <==> works_for(dispatches, device_id),
    decreases dispatches.len(),
{
    if dispatches.len() > 0 {
        let rest = dispatches.drop_last();
        lemma_workers(rest, device_id);
        let earlier = island_workers(rest);
        let own = shard_device_ids(dispatches.last().shards);
        let all = island_workers(dispatches);
        let last = dispatches.len() - 1;
        if all.contains(device_id) {
            let k = choose|k: int| 0 <= k < all.len() && all[k] == device_id;
            if k < earlier.len() {
                assert(earlier[k] == device_id);
                let (d, s) = choose|d: int, s: int|
                    #![trigger rest[d].shards[s]]
                    0 <= d < rest.len() && 0 <= s < rest[d].shards.len()
                        && rest[d].shards[s].device_id == device_id;
                assert(dispatches[d].shards[s].device_id == device_id);
            } else {
                let s = k - earlier.len();
                assert(own[s] == device_id);
                assert(dispatches[last].shards[s].device_id == device_id);
            }
        }
        if works_for(dispatches, device_id) {
            let (d, s) = choose|d: int, s: int|
                #![trigger dispatches[d].shards[s]]
                0 <= d < dispatches.len() && 0 <= s < dispatches[d].shards.len()
                    && dispatches[d].shards[s].device_id == device_id;
            if d < last {
                assert(rest[d].shards[s].device_id == device_id);
                let k = choose|k: int| 0 <= k < earlier.len() && earlier[k] == device_id;
                assert(all[k] == device_id);
            } else {
                assert(own[s] == device_id);
                assert(all[earlier.len() + s] == device_id);
            }
        }
    }
}

proof fn lemma_roles(owner_device_id: Seq<char>, workers: Seq<Seq<char>>, device_id: Seq<char>)
    ensures
        ({
            let roles = participant_roles(owner_device_id, workers);
            &&& roles.dom().finite()
            &&& roles.contains_key(device_id) <==> device_id == owner_device_id
                || workers.contains(device_id)
            &&& roles.contains_key(device_id) ==> (roles[device_id].contains(
                VulkanPhysicalExecutionParticipantRole::Coordinator,
            ) <==> device_id == owner_device_id)
            &&& roles.contains_key(device_id) ==> (roles[device_id].contains(
                VulkanPhysicalExecutionParticipantRole::ShardWorker,
            ) <==> workers.contains(device_id))
        }),
    decreases workers.len(),
{
    if workers.len() > 0 {
        let rest = workers.drop_last();
        lemma_roles(owner_device_id, rest, device_id);
        lemma_roles(owner_device_id, rest, workers.last());
        if rest.contains(device_id) {
            let k = choose|k: int| 0 <= k < rest.len() && rest[k] == device_id;
            assert(workers[k] == device_id);
        }
        if workers.last() == device_id {
            assert(workers[workers.len() - 1] == device_id);
        }
        if workers.contains(device_id) && workers.last() != device_id {
            let k = choose|k: int| 0 <= k < workers.len() && workers[k] == device_id;
            assert(rest[k] == device_id);
        }
    }
}

/// Some participant of a list stands on a device.
pub open spec fn has_participant(
    participants: Seq<VulkanPhysicalExecutionParticipantModel>,
    device_id: Seq<char>,
) -> bool {
    exists|p: int|
        0 <= p < participants.len() && (#[trigger] participants[p]).device_id == device_id
}

/// The participants of an island are its owner and the devices of its shards, each once. The
/// owner and no other coordinates, and the devices of shards and no other work.
pub proof fn law_participants_coordinate_or_work(
    island_index: usize,
    dispatches: Seq<VulkanDistributedDispatchPlanModel>,
    route: VulkanSharedResidentBufferRoute,
    phase: ExecutionPhase,
    island: VulkanPhysicalExecutionIslandPlanModel,
)
    requires
        forms_island(island_index, dispatches, route, phase, island),
    ensures
        forall|p: int|
            0 <= p < island.participants.len() ==> {
                let participant = #[trigger] island.participants[p];
                &&& participant.roles.contains(VulkanPhysicalExecutionParticipantRole::Coordinator)
                    <==> participant.device_id == island.owner_device_id
                &&& participant.roles.contains(VulkanPhysicalExecutionParticipantRole::ShardWorker)
                    <==> works_for(dispatches, participant.device_id)
                &&& participant.device_id == island.owner_device_id || works_for(
                    dispatches,
                    participant.device_id,
                )
            },
        forall|p: int, q: int|
            #![trigger island.participants[p], island.participants[q]]
            0 <= p < q < island.participants.len() ==> island.participants[p].device_id
                != island.participants[q].device_id,
        forall|device_id: Seq<char>| #[trigger]
            has_participant(island.participants, device_id) <==> device_id
                == island.owner_device_id || works_for(dispatches, device_id),
{
    let owner = island.owner_device_id;
    let workers = island_workers(dispatches);
    let roles = participant_roles(owner, workers);
    let listing = ordered_listing::<String, Set<VulkanPhysicalExecutionParticipantRole>>(roles);
    lemma_roles(owner, workers, owner);
    lemma_ordered_listing_exists::<String, Set<VulkanPhysicalExecutionParticipantRole>>(roles);
    assert forall|p: int| 0 <= p < island.participants.len() implies {
        let participant = #[trigger] island.participants[p];
        &&& participant.roles.contains(VulkanPhysicalExecutionParticipantRole::Coordinator)
            <==> participant.device_id == island.owner_device_id
        &&& participant.roles.contains(VulkanPhysicalExecutionParticipantRole::ShardWorker)
            <==> works_for(dispatches, participant.device_id)
        &&& participant.device_id == island.owner_device_id || works_for(
            dispatches,
            participant.device_id,
        )
    } by {
        lemma_listed_at::<String, Set<VulkanPhysicalExecutionParticipantRole>>(listing, p);
        lemma_roles(owner, workers, listing[p].0);
        lemma_workers(dispatches, listing[p].0);
    }
    assert forall|p: int, q: int|
        #![trigger island.participants[p], island.participants[q]]
        0 <= p < q < island.participants.len() implies island.participants[p].device_id
        != island.participants[q].device_id by {
        assert(<String as crate::values::OrderedKey>::before(listing[p].0, listing[q].0));
        <String as crate::values::OrderedKey>::order_is_irreflexive(listing[p].0);
    }
    assert forall|device_id: Seq<char>| #[trigger]
        has_participant(island.participants, device_id) <==> device_id == island.owner_device_id
            || works_for(dispatches, device_id) by {
        lemma_roles(owner, workers, device_id);
        lemma_workers(dispatches, device_id);
        if roles.contains_key(device_id) {
            assert(lists_key(listing, device_id));
            let k = choose|k: int| 0 <= k < listing.len() && #[trigger] listing[k].0 == device_id;
            assert(island.participants[k].device_id == device_id);
        }
        if has_participant(island.participants, device_id) {
            let p = choose|p: int|
                0 <= p < island.participants.len() && (
                #[trigger] island.participants[p]).device_id == device_id;
            lemma_listed_at::<String, Set<VulkanPhysicalExecutionParticipantRole>>(listing, p);
        }
    }
}

proof fn lemma_pairs(
    owner_device_id: Seq<char>,
    workers: Seq<Seq<char>>,
    source: Seq<char>,
    destination: Seq<char>,
)
    ensures
        synchronized_pairs(owner_device_id, workers).finite(),
        synchronized_pairs(owner_device_id, workers).contains((source, destination))
            <==> source != destination && (source == owner_device_id && workers.contains(
            destination,
        ) || destination == owner_device_id && workers.contains(source)),
    decreases workers.len(),
{
    if workers.len() > 0 {
        let rest = workers.drop_last();
        lemma_pairs(owner_device_id, rest, source, destination);
        lemma_contains_last(workers, source);
        lemma_contains_last(workers, destination);
    }
}

proof fn lemma_contains_last<T>(items: Seq<T>, item: T)
    requires
        items.len() > 0,
    ensures
        items.contains(item) <==> items.drop_last().contains(item) || items.last() == item,
{
    let rest = items.drop_last();
    if rest.contains(item) {
        let k = choose|k: int| 0 <= k < rest.len() && rest[k] == item;
        assert(items[k] == item);
    }
    if items.last() == item {
        assert(items[items.len() - 1] == item);
    }
    if items.contains(item) && items.last() != item {
        let k = choose|k: int| 0 <= k < items.len() && items[k] == item;
        assert(rest[k] == item);
    }
}

/// Some route of a list synchronizes one device with another.
pub open spec fn synchronizes(
    routes: Seq<VulkanPhysicalExecutionSynchronizationRouteModel>,
    source: Seq<char>,
    destination: Seq<char>,
) -> bool {
    exists|r: int|
        0 <= r < routes.len() && (#[trigger] routes[r]).source_device_id == source
            && routes[r].destination_device_id == destination
}

/// The queues of an island wait for each other exactly between its owner and every other
/// device with a shard, in both directions.
pub proof fn law_owners_synchronize_with_every_worker(
    island_index: usize,
    dispatches: Seq<VulkanDistributedDispatchPlanModel>,
    route: VulkanSharedResidentBufferRoute,
    phase: ExecutionPhase,
    island: VulkanPhysicalExecutionIslandPlanModel,
)
    requires
        forms_island(island_index, dispatches, route, phase, island),
    ensures
        forall|source: Seq<char>, destination: Seq<char>| #[trigger]
            synchronizes(island.synchronization_routes, source, destination) <==> source
                != destination && (source == island.owner_device_id && works_for(
                dispatches,
                destination,
            ) || destination == island.owner_device_id && works_for(dispatches, source)),
{
    let owner = island.owner_device_id;
    let workers = island_workers(dispatches);
    let pairs = synchronized_pairs(owner, workers);
    let members = ordered_members::<(String, String)>(pairs);
    lemma_pairs(owner, workers, owner, owner);
    lemma_members_listed::<(String, String)>(pairs);
    assert forall|source: Seq<char>, destination: Seq<char>| #[trigger]
        synchronizes(island.synchronization_routes, source, destination) <==> source
            != destination && (source == island.owner_device_id && works_for(
            dispatches,
            destination,
        ) || destination == island.owner_device_id && works_for(dispatches, source)) by {
        lemma_pairs(owner, workers, source, destination);
        lemma_workers(dispatches, source);
        lemma_workers(dispatches, destination);
        if pairs.contains((source, destination)) {
            assert(members.to_set().contains((source, destination)));
            let k = choose|k: int|
                0 <= k < members.len() && members[k] == (source, destination);
            assert(island.synchronization_routes[k].source_device_id == source);
        }
        if synchronizes(island.synchronization_routes, source, destination) {
            let r = choose|r: int|
                0 <= r < island.synchronization_routes.len() && (
                #[trigger] island.synchronization_routes[r]).source_device_id == source
                    && island.synchronization_routes[r].destination_device_id == destination;
            assert(members.to_set().contains(members[r]));
            assert(members[r] == (source, destination));
        }
    }
}

proof fn lemma_transported(
    participants: Seq<VulkanPhysicalExecutionParticipantModel>,
    entry: Seq<char>,
    exit: Seq<char>,
    input_bytes: usize,
    output_bytes: usize,
    source: Seq<char>,
    destination: Seq<char>,
    bytes: usize,
)
    ensures
        transported_pairs(participants, entry, exit, input_bytes, output_bytes).finite(),
        transported_pairs(participants, entry, exit, input_bytes, output_bytes).contains(
            (source, (destination, bytes)),
        ) <==> source != destination && (source == entry && has_participant(
            participants,
            destination,
        ) && bytes == input_bytes || destination == exit && has_participant(participants, source)
            && bytes == output_bytes),
    decreases participants.len(),
{
    if participants.len() > 0 {
        let rest = participants.drop_last();
        lemma_transported(
            rest,
            entry,
            exit,
            input_bytes,
            output_bytes,
            source,
            destination,
            bytes,
        );
        lemma_has_participant(participants, source);
        lemma_has_participant(participants, destination);
    }
}

proof fn lemma_has_participant(
    participants: Seq<VulkanPhysicalExecutionParticipantModel>,
    device_id: Seq<char>,
)
    requires
        participants.len() > 0,
    ensures
        has_participant(participants, device_id) <==> has_participant(
            participants.drop_last(),
            device_id,
        ) || participants.last().device_id == device_id,
{
    let rest = participants.drop_last();
    if has_participant(rest, device_id) {
        let p = choose|p: int| 0 <= p < rest.len() && (#[trigger] rest[p]).device_id == device_id;
        assert(participants[p].device_id == device_id);
    }
    if participants.last().device_id == device_id {
        assert(participants[participants.len() - 1].device_id == device_id);
    }
    if has_participant(participants, device_id) && participants.last().device_id != device_id {
        let p = choose|p: int|
            0 <= p < participants.len() && (#[trigger] participants[p]).device_id == device_id;
        assert(rest[p].device_id == device_id);
    }
}

/// Some route of a list carries bytes from one device to another.
pub open spec fn carries(
    routes: Seq<VulkanPhysicalExecutionTransportRouteModel>,
    source: Seq<char>,
    destination: Seq<char>,
    bytes: usize,
) -> bool {
    exists|r: int|
        0 <= r < routes.len() && (#[trigger] routes[r]).source_device_id == source
            && routes[r].destination_device_id == destination && routes[r].byte_capacity == bytes
}

/// The routes of an island carry the input of its first dispatch from the entry to every
/// other participant, and from every other participant the output of the last one to the
/// exit, and nothing else. Every route goes through the memory that the plan shares.
pub proof fn law_routes_carry_inputs_in_and_outputs_out(
    island_index: usize,
    dispatches: Seq<VulkanDistributedDispatchPlanModel>,
    route: VulkanSharedResidentBufferRoute,
    phase: ExecutionPhase,
    island: VulkanPhysicalExecutionIslandPlanModel,
)
    requires
        forms_island(island_index, dispatches, route, phase, island),
    ensures
        forall|source: Seq<char>, destination: Seq<char>, bytes: usize| #[trigger]
            carries(island.transport_routes, source, destination, bytes) <==> source != destination
                && (source == island.entry_device_id && has_participant(
                island.participants,
                destination,
            ) && bytes == dispatches.first().input_byte_capacity || destination
                == island.exit_device_id && has_participant(island.participants, source) && bytes
                == dispatches.last().output_byte_capacity),
        forall|r: int|
            0 <= r < island.transport_routes.len() ==> ((
            #[trigger] island.transport_routes[r]).kind is ExternalDeviceLocal <==> route
                is ExternalDeviceLocal),
{
    let input_bytes = dispatches.first().input_byte_capacity;
    let output_bytes = dispatches.last().output_byte_capacity;
    let pairs = transported_pairs(
        island.participants,
        island.entry_device_id,
        island.exit_device_id,
        input_bytes,
        output_bytes,
    );
    let members = ordered_members::<(String, (String, usize))>(pairs);
    lemma_transported(
        island.participants,
        island.entry_device_id,
        island.exit_device_id,
        input_bytes,
        output_bytes,
        island.entry_device_id,
        island.entry_device_id,
        0,
    );
    lemma_members_listed::<(String, (String, usize))>(pairs);
    assert forall|source: Seq<char>, destination: Seq<char>, bytes: usize| #[trigger]
        carries(island.transport_routes, source, destination, bytes) <==> source != destination
            && (source == island.entry_device_id && has_participant(
            island.participants,
            destination,
        ) && bytes == dispatches.first().input_byte_capacity || destination
            == island.exit_device_id && has_participant(island.participants, source) && bytes
            == dispatches.last().output_byte_capacity) by {
        lemma_transported(
            island.participants,
            island.entry_device_id,
            island.exit_device_id,
            input_bytes,
            output_bytes,
            source,
            destination,
            bytes,
        );
        let pair = (source, (destination, bytes));
        if pairs.contains(pair) {
            assert(members.to_set().contains(pair));
            let k = choose|k: int| 0 <= k < members.len() && members[k] == pair;
            assert(island.transport_routes[k].source_device_id == source);
        }
        if carries(island.transport_routes, source, destination, bytes) {
            let r = choose|r: int|
                0 <= r < island.transport_routes.len() && (
                #[trigger] island.transport_routes[r]).source_device_id == source
                    && island.transport_routes[r].destination_device_id == destination
                    && island.transport_routes[r].byte_capacity == bytes;
            assert(members.to_set().contains(members[r]));
            assert(members[r] == pair);
        }
    }
}

/// The assignment is that of a shard.
pub open spec fn is_assignment_of(
    dispatch: VulkanDistributedDispatchPlanModel,
    shard: VulkanDistributedDispatchShardModel,
    assignment: VulkanPhysicalExecutionShardAssignmentModel,
) -> bool {
    &&& assignment.dispatch_index == dispatch.dispatch_index
    &&& assignment.node_id == dispatch.node_id
    &&& assignment.distribution == dispatch.distribution
    &&& assignment.device_id == shard.device_id
    &&& assignment.logical_start == shard.row_start
    &&& assignment.logical_count == shard.row_count
    &&& assignment.parameter_bytes == sum_of(shard.parameters, fragment_bytes())
}

/// The shards of the first dispatches.
pub open spec fn shards_before(
    dispatches: Seq<VulkanDistributedDispatchPlanModel>,
    count: int,
) -> nat
    decreases count,
{
    if count <= 0 {
        0
    } else {
        shards_before(dispatches, count - 1) + dispatches[count - 1].shards.len()
    }
}

proof fn lemma_shards_before_same(
    left: Seq<VulkanDistributedDispatchPlanModel>,
    right: Seq<VulkanDistributedDispatchPlanModel>,
    count: int,
)
    requires
        count <= left.len(),
        count <= right.len(),
        forall|i: int| 0 <= i < count ==> left[i] == right[i],
    ensures
        shards_before(left, count) == shards_before(right, count),
    decreases count,
{
    if count > 0 {
        lemma_shards_before_same(left, right, count - 1);
    }
}

proof fn lemma_assignments(
    dispatches: Seq<VulkanDistributedDispatchPlanModel>,
    dispatch: int,
    shard: int,
)
    ensures
        island_assignments(dispatches).len() == shards_before(dispatches, dispatches.len() as int),
        0 <= dispatch < dispatches.len() && 0 <= shard < dispatches[dispatch].shards.len()
            && shard_parameter_bytes(dispatches[dispatch].shards[shard]) <= usize::MAX ==> ({
            let place = shards_before(dispatches, dispatch) + shard;
            &&& place < island_assignments(dispatches).len()
            &&& is_assignment_of(
                dispatches[dispatch],
                dispatches[dispatch].shards[shard],
                island_assignments(dispatches)[place],
            )
        }),
    decreases dispatches.len(),
{
    if dispatches.len() > 0 {
        let rest = dispatches.drop_last();
        lemma_assignments(rest, dispatch, shard);
        lemma_shards_before_same(rest, dispatches, rest.len() as int);
        if 0 <= dispatch < rest.len() {
            lemma_shards_before_same(rest, dispatches, dispatch);
        }
    }
}

/// Every shard of an island is assigned to its device once, dispatch by dispatch and shard by
/// shard.
pub proof fn law_every_shard_is_assigned(
    island_index: usize,
    dispatches: Seq<VulkanDistributedDispatchPlanModel>,
    route: VulkanSharedResidentBufferRoute,
    phase: ExecutionPhase,
    island: VulkanPhysicalExecutionIslandPlanModel,
    dispatch: int,
    shard: int,
)
    requires
        forms_island(island_index, dispatches, route, phase, island),
        0 <= dispatch < dispatches.len(),
        0 <= shard < dispatches[dispatch].shards.len(),
        sum_of(dispatches[dispatch].shards[shard].parameters, fragment_bytes()) <= usize::MAX,
    ensures
        island.shard_assignments.len() == shards_before(dispatches, dispatches.len() as int),
        shards_before(dispatches, dispatch) + shard < island.shard_assignments.len(),
        is_assignment_of(
            dispatches[dispatch],
            dispatches[dispatch].shards[shard],
            island.shard_assignments[shards_before(dispatches, dispatch) + shard],
        ),
{
    lemma_assignments(dispatches, dispatch, shard);
}

/// The step names the devices of the shards of a dispatch, and no other.
pub open spec fn runs_on_shards_of(
    dispatch: VulkanDistributedDispatchPlanModel,
    step: VulkanPhysicalExecutionScheduleStepModel,
) -> bool {
    &&& step.dispatch_index == dispatch.dispatch_index
    &&& forall|s: int|
        0 <= s < dispatch.shards.len() ==> step.device_ids.contains(
            (#[trigger] dispatch.shards[s]).device_id,
        )
    &&& forall|k: int|
        0 <= k < step.device_ids.len() ==> works_for(seq![dispatch], #[trigger] step.device_ids[k])
    &&& step.device_ids.no_duplicates()
}

proof fn lemma_distinct<T>(items: Seq<T>, item: T)
    ensures
        crate::sequences::distinct(items).contains(item) <==> items.contains(item),
        crate::sequences::distinct(items).no_duplicates(),
    decreases items.len(),
{
    if items.len() > 0 {
        let rest = items.drop_last();
        let earlier = crate::sequences::distinct(rest);
        lemma_distinct(rest, item);
        lemma_distinct(rest, items.last());
        lemma_contains_last(items, item);
        let grown = earlier.push(items.last());
        assert(grown.drop_last() =~= earlier);
        lemma_contains_last(grown, item);
    }
}

proof fn lemma_step_of_shards(dispatch: VulkanDistributedDispatchPlanModel, step: VulkanPhysicalExecutionScheduleStepModel)
    requires
        step.dispatch_index == dispatch.dispatch_index,
        step.device_ids == crate::sequences::distinct(shard_device_ids(dispatch.shards)),
    ensures
        runs_on_shards_of(dispatch, step),
{
    let ids = shard_device_ids(dispatch.shards);
    assert forall|s: int| 0 <= s < dispatch.shards.len() implies step.device_ids.contains(
        (#[trigger] dispatch.shards[s]).device_id,
    ) by {
        assert(ids[s] == dispatch.shards[s].device_id);
        lemma_distinct(ids, dispatch.shards[s].device_id);
    }
    lemma_distinct(ids, Seq::empty());
    assert forall|k: int| 0 <= k < step.device_ids.len() implies works_for(
        seq![dispatch],
        #[trigger] step.device_ids[k],
    ) by {
        let device_id = step.device_ids[k];
        lemma_distinct(ids, device_id);
        assert(step.device_ids.contains(device_id));
        let s = choose|s: int| 0 <= s < ids.len() && ids[s] == device_id;
        assert(seq![dispatch][0].shards[s].device_id == device_id);
    }
}

/// The schedule of an island publishes its inputs to the devices of the first dispatch,
/// executes every dispatch on the devices of its shards, and collects the outputs of the
/// last one at the exit.
pub proof fn law_schedules_run_on_the_devices_of_shards(
    island_index: usize,
    dispatches: Seq<VulkanDistributedDispatchPlanModel>,
    route: VulkanSharedResidentBufferRoute,
    phase: ExecutionPhase,
    island: VulkanPhysicalExecutionIslandPlanModel,
)
    requires
        forms_island(island_index, dispatches, route, phase, island),
        dispatches.len() < usize::MAX,
    ensures
        ({
            let steps = island.phase_schedules[0].steps;
            &&& steps.len() == dispatches.len() + 2
            &&& steps[0].kind is PublishInputs
            &&& steps[0].ordinal == 0
            &&& runs_on_shards_of(dispatches[0], steps[0])
            &&& forall|d: int|
                0 <= d < dispatches.len() ==> (#[trigger] steps[d + 1]).kind is ExecuteShards
                    && steps[d + 1].ordinal == d + 1 && runs_on_shards_of(
                    dispatches[d],
                    steps[d + 1],
                )
            &&& steps.last().kind is CollectOutputs
            &&& steps.last().ordinal == dispatches.len() + 1
            &&& steps.last().dispatch_index == dispatches.last().dispatch_index
            &&& steps.last().device_ids == seq![island.exit_device_id]
        }),
{
    let steps = island.phase_schedules[0].steps;
    lemma_step_of_shards(dispatches[0], steps[0]);
    assert forall|d: int| 0 <= d < dispatches.len() implies (
    #[trigger] steps[d + 1]).kind is ExecuteShards && steps[d + 1].ordinal == d + 1
        && runs_on_shards_of(dispatches[d], steps[d + 1]) by {
        lemma_step_of_shards(dispatches[d], steps[d + 1]);
    }
}

/// One dispatch runs behind another in one recorded sequence: they are neighbours of one
/// owner and component, the second reads the activation that the first writes, and both run
/// the same rows on the same devices. Either they run the same experts, or every device reads
/// in the second exactly the bytes that it wrote in the first.
pub open spec fn runs_behind(
    first: VulkanDistributedDispatchPlanModel,
    second: VulkanDistributedDispatchPlanModel,
) -> bool {
    &&& first.owner_device_id == second.owner_device_id
    &&& first.component_id == second.component_id
    &&& second.dispatch_index == first.dispatch_index + 1
    &&& first.output_activation.component_id == second.input_activation.component_id
    &&& first.output_activation.signal_id == second.input_activation.signal_id
    &&& first.output_activation.slot == second.input_activation.slot
    &&& first.output_activation.byte_capacity == second.input_activation.byte_capacity
    &&& first.output_activation.signal_byte_capacity
        == second.input_activation.signal_byte_capacity
    &&& first.output_activation.storage == second.input_activation.storage
    &&& first.shards.len() == second.shards.len()
    &&& forall|s: int|
        0 <= s < first.shards.len() ==> (#[trigger] first.shards[s]).device_id
            == second.shards[s].device_id && first.shards[s].row_start
            == second.shards[s].row_start && first.shards[s].row_count
            == second.shards[s].row_count
    &&& {
        ||| first.distribution is ExpertRange && second.distribution is ExpertRange && forall|
            s: int,
        |
            0 <= s < first.shards.len() ==> (#[trigger] first.shards[s]).base_workgroup_z
                == second.shards[s].base_workgroup_z
        ||| first.distribution is OutputRows && second.distribution is InputColumns
            && second.input_distribution is Sharded && first.output_collection is Concatenated
            && forall|s: int|
            0 <= s < first.shards.len() ==> (#[trigger] first.shards[s]).output_byte_offset
                == second.shards[s].input_range.byte_offset && first.shards[s].output_byte_count
                == second.shards[s].input_range.byte_count
    }
}

/// Dispatches of one island run behind each other, one by one.
pub proof fn law_dispatches_of_an_island_run_behind_each_other(
    dispatches: Seq<VulkanDistributedDispatchPlanModel>,
    group: int,
    index: int,
)
    requires
        0 <= group < sequence_groups(dispatches).len(),
        0 <= index < sequence_groups(dispatches)[group].len() - 1,
    ensures
        runs_behind(
            sequence_groups(dispatches)[group][index],
            sequence_groups(dispatches)[group][index + 1],
        ),
{
    law_grouped_dispatches_share_a_sequence(dispatches, group, index);
}

/// A dispatch starts a new island only where it cannot share a sequence with the dispatch
/// before it.
pub proof fn law_islands_are_as_long_as_can_be(
    dispatches: Seq<VulkanDistributedDispatchPlanModel>,
    group: int,
)
    requires
        0 <= group < sequence_groups(dispatches).len() - 1,
    ensures
        sequence_groups(dispatches)[group].len() > 0,
        sequence_groups(dispatches)[group + 1].len() > 0,
        !shares_sequence(
            sequence_groups(dispatches)[group].last(),
            sequence_groups(dispatches)[group + 1].first(),
        ),
    decreases dispatches.len(),
{
    if dispatches.len() > 0 {
        let rest = dispatches.drop_last();
        let before = sequence_groups(rest);
        let groups = sequence_groups(dispatches);
        crate::island_plans::law_groups_partition_the_dispatches(rest);
        crate::island_plans::law_groups_partition_the_dispatches(dispatches);
        if group + 1 < before.len() {
            law_islands_are_as_long_as_can_be(rest, group);
            assert(before[group].len() > 0 && before[group + 1].len() > 0);
            if group + 1 == before.len() - 1 {
                assert(groups[group + 1].first() == before[group + 1].first());
            }
        }
    }
}

/// The parameter bytes of the first shards on a device.
pub open spec fn bytes_on(
    shards: Seq<VulkanDistributedDispatchShardModel>,
    count: int,
    device_id: Seq<char>,
) -> nat
    decreases count,
{
    if count <= 0 {
        0
    } else {
        bytes_on(shards, count - 1, device_id) + if shards[count - 1].device_id == device_id {
            sum_of(shards[count - 1].parameters, fragment_bytes())
        } else {
            0
        }
    }
}

/// The parameter bytes of the shards of the first dispatches on a device.
pub open spec fn island_bytes_on(
    dispatches: Seq<VulkanDistributedDispatchPlanModel>,
    count: int,
    device_id: Seq<char>,
) -> nat
    decreases count,
{
    if count <= 0 {
        0
    } else {
        island_bytes_on(dispatches, count - 1, device_id) + bytes_on(
            dispatches[count - 1].shards,
            dispatches[count - 1].shards.len() as int,
            device_id,
        )
    }
}

/// The bytes of a device in a map, none where it has no entry.
pub open spec fn bytes_of(found: Map<Seq<char>, usize>, device_id: Seq<char>) -> nat {
    if found.contains_key(device_id) {
        found[device_id] as nat
    } else {
        0
    }
}

proof fn lemma_bytes_counted(
    shards: Seq<VulkanDistributedDispatchShardModel>,
    index: nat,
    found: Map<Seq<char>, usize>,
    device_id: Seq<char>,
)
    requires
        index <= shards.len(),
        found.dom().finite(),
        fold_from(shards, index, found, parameter_bytes_step()) is Ok,
    ensures
        ({
            let all = fold_from(shards, index, found, parameter_bytes_step())->Ok_0;
            &&& all.dom().finite()
            &&& found.contains_key(device_id) ==> all.contains_key(device_id)
            &&& forall|s: int|
                index <= s < shards.len() && (#[trigger] shards[s]).device_id == device_id
                    ==> all.contains_key(device_id)
            &&& bytes_of(all, device_id) + bytes_on(shards, index as int, device_id) == bytes_of(
                found,
                device_id,
            ) + bytes_on(shards, shards.len() as int, device_id)
        }),
    decreases shards.len() - index,
{
    if index < shards.len() {
        let shard = shards[index as int];
        let next = parameter_bytes_step()(found, shard)->Ok_0;
        lemma_bytes_counted(shards, index + 1, next, device_id);
        assert(shard_parameter_bytes(shard) == sum_of(shard.parameters, fragment_bytes()));
    }
}

/// Later entries of a map keep those before.
pub open spec fn extends<K, X>(before: Map<K, X>, after: Map<K, X>) -> bool {
    forall|key: K| #[trigger]
        before.contains_key(key) ==> after.contains_key(key) && after[key] == before[key]
}

proof fn lemma_residency_kept(
    requirements: Seq<VulkanPhysicalExecutionResidencyRequirementModel>,
    index: nat,
    found: Map<(Seq<char>, (VulkanPhysicalExecutionResidencyKind, Seq<char>)), usize>,
)
    requires
        index <= requirements.len(),
        found.dom().finite(),
        fold_from(requirements, index, found, residency_step()) is Ok,
    ensures
        ({
            let all = fold_from(requirements, index, found, residency_step())->Ok_0;
            &&& all.dom().finite()
            &&& extends(found, all)
            &&& forall|r: int|
                index <= r < requirements.len() ==> has_residency(all, #[trigger] requirements[r])
        }),
    decreases requirements.len() - index,
{
    if index < requirements.len() {
        let requirement = requirements[index as int];
        let next = residency_step()(found, requirement)->Ok_0;
        lemma_residency_kept(requirements, index + 1, next);
        let all = fold_from(requirements, index + 1, next, residency_step())->Ok_0;
        assert(extends(found, next));
        assert(has_residency(next, requirement));
        assert(has_residency(all, requirement));
    }
}

/// The map has a requirement.
pub open spec fn has_residency(
    found: Map<(Seq<char>, (VulkanPhysicalExecutionResidencyKind, Seq<char>)), usize>,
    requirement: VulkanPhysicalExecutionResidencyRequirementModel,
) -> bool {
    let key = (requirement.device_id, (requirement.kind, requirement.resource_id));
    found.contains_key(key) && found[key] == requirement.byte_capacity
}

/// The map has the bytes of an activation where it is held.
pub open spec fn has_activation(
    found: Map<(Seq<char>, (VulkanDistributedActivationStorageModel, (Seq<char>, usize))), usize>,
    owner_device_id: Seq<char>,
    activation: VulkanDistributedActivationSlotModel,
) -> bool {
    exists|device_id: Seq<char>| #[trigger]
        is_held_by(activation, owner_device_id, device_id) && found.contains_key(
            (device_id, (activation.storage, (activation.component_id, activation.slot))),
        ) && found[(
            device_id,
            (activation.storage, (activation.component_id, activation.slot)),
        )] == activation.byte_capacity
}

proof fn lemma_activations_kept(
    activations: Seq<VulkanDistributedActivationSlotModel>,
    owner_device_id: Seq<char>,
    index: nat,
    found: Map<(Seq<char>, (VulkanDistributedActivationStorageModel, (Seq<char>, usize))), usize>,
)
    requires
        index <= activations.len(),
        found.dom().finite(),
        fold_from(activations, index, found, shared_activation_step(owner_device_id)) is Ok,
    ensures
        ({
            let all = fold_from(
                activations,
                index,
                found,
                shared_activation_step(owner_device_id),
            )->Ok_0;
            &&& all.dom().finite()
            &&& extends(found, all)
            &&& forall|a: int|
                index <= a < activations.len() ==> has_activation(
                    all,
                    owner_device_id,
                    #[trigger] activations[a],
                )
        }),
    decreases activations.len() - index,
{
    if index < activations.len() {
        let activation = activations[index as int];
        let step = shared_activation_step(owner_device_id);
        let next = step(found, activation)->Ok_0;
        lemma_activations_kept(activations, owner_device_id, index + 1, next);
        let all = fold_from(activations, index + 1, next, step)->Ok_0;
        assert(extends(found, next));
        let device_id = crate::islands::activation_owner(owner_device_id, activation);
        assert(is_held_by(activation, owner_device_id, device_id));
        assert(next.contains_key(
            (device_id, (activation.storage, (activation.component_id, activation.slot))),
        ));
        assert(has_activation(all, owner_device_id, activation));
    }
}

/// A demand serves a dispatch: the requirements of its owner, and the activations that it
/// shares.
pub open spec fn serves_dispatch(
    demand: IslandDemandModel,
    dispatch: VulkanDistributedDispatchPlanModel,
    producers: Set<usize>,
    consumers: Set<usize>,
) -> bool {
    &&& forall|r: int|
        0 <= r < dispatch.owner_residency_requirements.len() ==> has_residency(
            demand.residency,
            #[trigger] dispatch.owner_residency_requirements[r],
        )
    &&& !consumers.contains(dispatch.dispatch_index) ==> has_activation(
        demand.activations,
        dispatch.owner_device_id,
        dispatch.input_activation,
    )
    &&& !producers.contains(dispatch.dispatch_index) ==> has_activation(
        demand.activations,
        dispatch.owner_device_id,
        dispatch.output_activation,
    )
    &&& forall|a: int|
        0 <= a < dispatch.auxiliary_input_activations.len() ==> has_activation(
            demand.activations,
            dispatch.owner_device_id,
            #[trigger] dispatch.auxiliary_input_activations[a],
        )
}

proof fn lemma_served_by_extension(
    before: IslandDemandModel,
    after: IslandDemandModel,
    dispatch: VulkanDistributedDispatchPlanModel,
    producers: Set<usize>,
    consumers: Set<usize>,
)
    requires
        serves_dispatch(before, dispatch, producers, consumers),
        extends(before.residency, after.residency),
        extends(before.activations, after.activations),
    ensures
        serves_dispatch(after, dispatch, producers, consumers),
{
}

proof fn lemma_demand(
    dispatches: Seq<VulkanDistributedDispatchPlanModel>,
    producers: Set<usize>,
    consumers: Set<usize>,
    index: nat,
    found: IslandDemandModel,
    device_id: Seq<char>,
)
    requires
        index <= dispatches.len(),
        found.residency.dom().finite(),
        found.activations.dom().finite(),
        found.parameter_bytes.dom().finite(),
        fold_from(dispatches, index, found, demand_step(producers, consumers)) is Ok,
    ensures
        ({
            let all = fold_from(dispatches, index, found, demand_step(producers, consumers))->Ok_0;
            &&& all.residency.dom().finite()
            &&& all.activations.dom().finite()
            &&& all.parameter_bytes.dom().finite()
            &&& extends(found.residency, all.residency)
            &&& extends(found.activations, all.activations)
            &&& found.parameter_bytes.contains_key(device_id) ==> all.parameter_bytes.contains_key(
                device_id,
            )
            &&& bytes_of(all.parameter_bytes, device_id) + island_bytes_on(
                dispatches,
                index as int,
                device_id,
            ) == bytes_of(found.parameter_bytes, device_id) + island_bytes_on(
                dispatches,
                dispatches.len() as int,
                device_id,
            )
            &&& forall|d: int, s: int|
                #![trigger dispatches[d].shards[s]]
                index <= d < dispatches.len() && 0 <= s < dispatches[d].shards.len()
                    && dispatches[d].shards[s].device_id == device_id
                    ==> all.parameter_bytes.contains_key(device_id)
            &&& forall|d: int|
                index <= d < dispatches.len() ==> serves_dispatch(
                    all,
                    #[trigger] dispatches[d],
                    producers,
                    consumers,
                )
        }),
    decreases dispatches.len() - index,
{
    if index < dispatches.len() {
        let dispatch = dispatches[index as int];
        let step = demand_step(producers, consumers);
        let next = step(found, dispatch)->Ok_0;
        let shared = shared_activations(dispatch, producers, consumers);
        lemma_residency_kept(dispatch.owner_residency_requirements, 0, found.residency);
        lemma_activations_kept(shared, dispatch.owner_device_id, 0, found.activations);
        lemma_bytes_counted(dispatch.shards, 0, found.parameter_bytes, device_id);
        let inputs = if consumers.contains(dispatch.dispatch_index) {
            0int
        } else {
            1
        };
        if !consumers.contains(dispatch.dispatch_index) {
            assert(shared[0] == dispatch.input_activation);
        }
        if !producers.contains(dispatch.dispatch_index) {
            assert(shared[shared.len() - 1] == dispatch.output_activation);
        }
        assert forall|a: int| 0 <= a < dispatch.auxiliary_input_activations.len() implies
            has_activation(
            next.activations,
            dispatch.owner_device_id,
            #[trigger] dispatch.auxiliary_input_activations[a],
        ) by {
            assert(shared[inputs + a] == dispatch.auxiliary_input_activations[a]);
        }
        assert(serves_dispatch(next, dispatch, producers, consumers));
        lemma_demand(dispatches, producers, consumers, index + 1, next, device_id);
        let all = fold_from(dispatches, index + 1, next, step)->Ok_0;
        lemma_served_by_extension(next, all, dispatch, producers, consumers);
    }
}

/// An island keeps something resident on a device.
pub open spec fn keeps_resident(
    island: VulkanPhysicalExecutionIslandPlanModel,
    requirement: VulkanPhysicalExecutionResidencyRequirementModel,
) -> bool {
    exists|k: int| 0 <= k < island.residency.len() && #[trigger] island.residency[k] == requirement
}

/// An island keeps resident what its dispatches need: on every device with a shard, all
/// parameter bytes of the shards there, and every requirement of an owner as it is declared.
pub proof fn law_islands_keep_what_their_dispatches_need(
    island_index: usize,
    dispatches: Seq<VulkanDistributedDispatchPlanModel>,
    route: VulkanSharedResidentBufferRoute,
    phase: ExecutionPhase,
    island: VulkanPhysicalExecutionIslandPlanModel,
)
    requires
        forms_island(island_index, dispatches, route, phase, island),
    ensures
        forall|device_id: Seq<char>| #[trigger]
            works_for(dispatches, device_id) ==> island_bytes_on(
                dispatches,
                dispatches.len() as int,
                device_id,
            ) <= usize::MAX && keeps_resident(
                island,
                VulkanPhysicalExecutionResidencyRequirementModel {
                    device_id,
                    kind: VulkanPhysicalExecutionResidencyKind::PermanentParameterShard,
                    resource_id: "parameter_shards"@,
                    byte_capacity: island_bytes_on(
                        dispatches,
                        dispatches.len() as int,
                        device_id,
                    ) as usize,
                },
            ),
        forall|d: int, r: int|
            #![trigger dispatches[d].owner_residency_requirements[r]]
            0 <= d < dispatches.len() && 0 <= r < dispatches[d].owner_residency_requirements.len()
                ==> keeps_resident(island, dispatches[d].owner_residency_requirements[r]),
{
    let producers = private_producers(dispatches);
    let consumers = private_consumers(dispatches);
    let nothing = IslandDemandModel {
        residency: Map::empty(),
        activations: Map::empty(),
        parameter_bytes: Map::empty(),
    };
    let demand = island_demand(dispatches)->Ok_0;
    let own = ordered_listing::<String, usize>(demand.parameter_bytes);
    lemma_demand(dispatches, producers, consumers, 0, nothing, Seq::empty());
    lemma_ordered_listing_exists::<String, usize>(demand.parameter_bytes);
    assert forall|device_id: Seq<char>| #[trigger]
        works_for(dispatches, device_id) implies island_bytes_on(
        dispatches,
        dispatches.len() as int,
        device_id,
    ) <= usize::MAX && keeps_resident(
        island,
        VulkanPhysicalExecutionResidencyRequirementModel {
            device_id,
            kind: VulkanPhysicalExecutionResidencyKind::PermanentParameterShard,
            resource_id: "parameter_shards"@,
            byte_capacity: island_bytes_on(
                dispatches,
                dispatches.len() as int,
                device_id,
            ) as usize,
        },
    ) by {
        lemma_demand(dispatches, producers, consumers, 0, nothing, device_id);
        let (d, s) = choose|d: int, s: int|
            #![trigger dispatches[d].shards[s]]
            0 <= d < dispatches.len() && 0 <= s < dispatches[d].shards.len()
                && dispatches[d].shards[s].device_id == device_id;
        assert(dispatches[d].shards[s].device_id == device_id);
        assert(demand.parameter_bytes.contains_key(device_id));
        assert(lists_key(own, device_id));
        let k = choose|k: int| 0 <= k < own.len() && #[trigger] own[k].0 == device_id;
        lemma_listed_at::<String, usize>(own, k);
        assert(island.residency[k] == (VulkanPhysicalExecutionResidencyRequirementModel {
            device_id,
            kind: VulkanPhysicalExecutionResidencyKind::PermanentParameterShard,
            resource_id: "parameter_shards"@,
            byte_capacity: own[k].1,
        }));
    }
    let others = ordered_listing::<(String, (VulkanPhysicalExecutionResidencyKind, String)), usize>(
        demand.residency,
    );
    lemma_ordered_listing_exists::<
        (String, (VulkanPhysicalExecutionResidencyKind, String)),
        usize,
    >(demand.residency);
    assert forall|d: int, r: int|
        #![trigger dispatches[d].owner_residency_requirements[r]]
        0 <= d < dispatches.len() && 0 <= r
            < dispatches[d].owner_residency_requirements.len() implies keeps_resident(
        island,
        dispatches[d].owner_residency_requirements[r],
    ) by {
        let requirement = dispatches[d].owner_residency_requirements[r];
        let key = (requirement.device_id, (requirement.kind, requirement.resource_id));
        assert(serves_dispatch(demand, dispatches[d], producers, consumers));
        assert(has_residency(demand.residency, requirement));
        assert(lists_key(others, key));
        let k = choose|k: int| 0 <= k < others.len() && #[trigger] others[k].0 == key;
        lemma_listed_at::<(String, (VulkanPhysicalExecutionResidencyKind, String)), usize>(
            others,
            k,
        );
        assert(island.residency[own.len() + k] == requirement);
    }
}

/// An island asks for memory of a kind on a device for every lane.
pub open spec fn asks_for_memory(
    island: VulkanPhysicalExecutionIslandPlanModel,
    kind: crate::execution_plans::VulkanPhysicalExecutionTransientMemoryKind,
    device_id: Seq<char>,
    bytes: usize,
) -> bool {
    exists|k: int|
        0 <= k < island.transient_memory.len() && (
        #[trigger] island.transient_memory[k]).allocation_device_id == device_id
            && island.transient_memory[k].kind == kind
            && island.transient_memory[k].per_lane_byte_capacity == bytes
            && island.transient_memory[k].fixed_byte_capacity == 0
}

/// The activation has memory of its size where it is held.
pub open spec fn has_shared_memory(
    island: VulkanPhysicalExecutionIslandPlanModel,
    activation: VulkanDistributedActivationSlotModel,
) -> bool {
    exists|device_id: Seq<char>| #[trigger]
        is_held_by(activation, island.owner_device_id, device_id) && asks_for_memory(
            island,
            crate::execution_plans::VulkanPhysicalExecutionTransientMemoryKind::SharedActivationAllocation,
            device_id,
            activation.byte_capacity,
        )
}

/// No two dispatches have one number.
pub open spec fn are_numbered_apart(dispatches: Seq<VulkanDistributedDispatchPlanModel>) -> bool {
    forall|i: int, j: int|
        #![trigger dispatches[i], dispatches[j]]
        0 <= i < j < dispatches.len() ==> dispatches[i].dispatch_index
            != dispatches[j].dispatch_index
}

proof fn lemma_privates_numbered(dispatches: Seq<VulkanDistributedDispatchPlanModel>, index: int)
    requires
        are_numbered_apart(dispatches),
        0 <= index < dispatches.len(),
    ensures
        private_producers(dispatches).contains(dispatches[index].dispatch_index) <==> index + 1
            < dispatches.len() && hands_off_locally(dispatches[index], dispatches[index + 1]),
        private_consumers(dispatches).contains(dispatches[index].dispatch_index) <==> index > 0
            && hands_off_locally(dispatches[index - 1], dispatches[index]),
    decreases dispatches.len(),
{
    if dispatches.len() >= 2 {
        let rest = dispatches.drop_last();
        if index < rest.len() {
            lemma_privates_numbered(rest, index);
            assert(rest[index] == dispatches[index]);
            if index > 0 {
                assert(rest[index - 1] == dispatches[index - 1]);
            }
            if index + 1 < rest.len() {
                assert(rest[index + 1] == dispatches[index + 1]);
            }
            assert(dispatches[index].dispatch_index
                != dispatches[dispatches.len() - 1].dispatch_index);
        } else {
            lemma_numbers_listed(rest, dispatches[index].dispatch_index);
            if private_producers(rest).contains(dispatches[index].dispatch_index)
                || private_consumers(rest).contains(dispatches[index].dispatch_index) {
                let i = choose|i: int|
                    0 <= i < rest.len() && (#[trigger] rest[i]).dispatch_index
                        == dispatches[index].dispatch_index;
                assert(dispatches[i].dispatch_index != dispatches[index].dispatch_index);
            }
            assert(dispatches[index - 1].dispatch_index != dispatches[index].dispatch_index);
        }
    }
}

proof fn lemma_numbers_listed(dispatches: Seq<VulkanDistributedDispatchPlanModel>, number: usize)
    ensures
        private_producers(dispatches).contains(number) || private_consumers(dispatches).contains(
            number,
        ) ==> exists|i: int|
            0 <= i < dispatches.len() && (#[trigger] dispatches[i]).dispatch_index == number,
    decreases dispatches.len(),
{
    if dispatches.len() >= 2 {
        let rest = dispatches.drop_last();
        lemma_numbers_listed(rest, number);
        if private_producers(rest).contains(number) || private_consumers(rest).contains(number) {
            let i = choose|i: int|
                0 <= i < rest.len() && (#[trigger] rest[i]).dispatch_index == number;
            assert(dispatches[i].dispatch_index == number);
        } else if private_producers(dispatches).contains(number) {
            assert(dispatches[dispatches.len() - 2].dispatch_index == number);
        } else if private_consumers(dispatches).contains(number) {
            assert(dispatches[dispatches.len() - 1].dispatch_index == number);
        }
    }
}

/// An island has memory for every activation that its dispatches share, as large as the
/// activation: for all auxiliary inputs, and for inputs and outputs that are not handed from
/// one of its dispatches to the next on the same device.
pub proof fn law_islands_have_memory_for_what_they_share(
    island_index: usize,
    dispatches: Seq<VulkanDistributedDispatchPlanModel>,
    route: VulkanSharedResidentBufferRoute,
    phase: ExecutionPhase,
    island: VulkanPhysicalExecutionIslandPlanModel,
    index: int,
)
    requires
        forms_island(island_index, dispatches, route, phase, island),
        are_numbered_apart(dispatches),
        0 <= index < dispatches.len(),
    ensures
        forall|a: int|
            0 <= a < dispatches[index].auxiliary_input_activations.len() ==> has_shared_memory(
                island,
                #[trigger] dispatches[index].auxiliary_input_activations[a],
            ),
        index == 0 || !hands_off_locally(dispatches[index - 1], dispatches[index])
            ==> has_shared_memory(island, dispatches[index].input_activation),
        index + 1 == dispatches.len() || !hands_off_locally(
            dispatches[index],
            dispatches[index + 1],
        ) ==> has_shared_memory(island, dispatches[index].output_activation),
{
    let producers = private_producers(dispatches);
    let consumers = private_consumers(dispatches);
    let nothing = IslandDemandModel {
        residency: Map::empty(),
        activations: Map::empty(),
        parameter_bytes: Map::empty(),
    };
    let demand = island_demand(dispatches)->Ok_0;
    lemma_demand(dispatches, producers, consumers, 0, nothing, Seq::empty());
    lemma_privates_numbered(dispatches, index);
    let dispatch = dispatches[index];
    assert(serves_dispatch(demand, dispatch, producers, consumers));
    assert(dispatch.owner_device_id == island.owner_device_id);
    assert forall|a: int| 0 <= a < dispatch.auxiliary_input_activations.len() implies
        has_shared_memory(island, #[trigger] dispatch.auxiliary_input_activations[a]) by {
        lemma_shared_memory(
            island_index,
            dispatches,
            route,
            phase,
            island,
            dispatch.auxiliary_input_activations[a],
        );
    }
    if !consumers.contains(dispatch.dispatch_index) {
        lemma_shared_memory(
            island_index,
            dispatches,
            route,
            phase,
            island,
            dispatch.input_activation,
        );
    }
    if !producers.contains(dispatch.dispatch_index) {
        lemma_shared_memory(
            island_index,
            dispatches,
            route,
            phase,
            island,
            dispatch.output_activation,
        );
    }
}

proof fn lemma_shared_memory(
    island_index: usize,
    dispatches: Seq<VulkanDistributedDispatchPlanModel>,
    route: VulkanSharedResidentBufferRoute,
    phase: ExecutionPhase,
    island: VulkanPhysicalExecutionIslandPlanModel,
    activation: VulkanDistributedActivationSlotModel,
)
    requires
        forms_island(island_index, dispatches, route, phase, island),
        island_demand(dispatches)->Ok_0.activations.dom().finite(),
        has_activation(
            island_demand(dispatches)->Ok_0.activations,
            island.owner_device_id,
            activation,
        ),
    ensures
        has_shared_memory(island, activation),
{
    let demand = island_demand(dispatches)->Ok_0;
    let listing = ordered_listing::<
        (String, (crate::execution_plans::VulkanDistributedActivationStorage, (String, usize))),
        usize,
    >(demand.activations);
    lemma_ordered_listing_exists::<
        (String, (crate::execution_plans::VulkanDistributedActivationStorage, (String, usize))),
        usize,
    >(demand.activations);
    let device_id = choose|device_id: Seq<char>| #[trigger]
        is_held_by(activation, island.owner_device_id, device_id)
            && demand.activations.contains_key(
            (device_id, (activation.storage, (activation.component_id, activation.slot))),
        ) && demand.activations[(
            device_id,
            (activation.storage, (activation.component_id, activation.slot)),
        )] == activation.byte_capacity;
    let key = (device_id, (activation.storage, (activation.component_id, activation.slot)));
    assert(lists_key(listing, key));
    let k = choose|k: int| 0 <= k < listing.len() && #[trigger] listing[k].0 == key;
    lemma_listed_at::<
        (String, (crate::execution_plans::VulkanDistributedActivationStorage, (String, usize))),
        usize,
    >(listing, k);
    assert(island.transient_memory[k].allocation_device_id == device_id);
    assert(asks_for_memory(
        island,
        crate::execution_plans::VulkanPhysicalExecutionTransientMemoryKind::SharedActivationAllocation,
        device_id,
        activation.byte_capacity,
    ));
}

proof fn lemma_private_shards(
    producer: VulkanDistributedDispatchPlanModel,
    consumer: VulkanDistributedDispatchPlanModel,
    index: nat,
    found: PrivateBytesModel,
)
    requires
        producer.shards.len() == consumer.shards.len(),
        index <= producer.shards.len(),
        found.dom().finite(),
        private_shards_from(producer, consumer, index, found) is Ok,
    ensures
        ({
            let all = private_shards_from(producer, consumer, index, found)->Ok_0;
            &&& all.dom().finite()
            &&& extends(found, all)
            &&& forall|s: int|
                index <= s < producer.shards.len() ==> has_private(
                    all,
                    producer,
                    consumer,
                    #[trigger] producer.shards[s],
                )
        }),
    decreases producer.shards.len() - index,
{
    if index < producer.shards.len() {
        let shard = producer.shards[index as int];
        let activation = producer.output_activation;
        let key = (
            shard.device_id,
            (
                activation.component_id,
                (activation.slot, (producer.dispatch_index, consumer.dispatch_index)),
            ),
        );
        let next = found.insert(key, shard.output_byte_count);
        lemma_private_shards(producer, consumer, index + 1, next);
        let all = private_shards_from(producer, consumer, index + 1, next)->Ok_0;
        assert(extends(found, next));
        assert(next.contains_key(key));
        assert(has_private(all, producer, consumer, shard));
    }
}

/// The map has the bytes that a shard hands to the next dispatch on its device.
pub open spec fn has_private(
    found: PrivateBytesModel,
    producer: VulkanDistributedDispatchPlanModel,
    consumer: VulkanDistributedDispatchPlanModel,
    shard: VulkanDistributedDispatchShardModel,
) -> bool {
    let activation = producer.output_activation;
    let key = (
        shard.device_id,
        (
            activation.component_id,
            (activation.slot, (producer.dispatch_index, consumer.dispatch_index)),
        ),
    );
    found.contains_key(key) && found[key] == shard.output_byte_count
}

proof fn lemma_private_pairs(
    dispatches: Seq<VulkanDistributedDispatchPlanModel>,
    index: nat,
    found: PrivateBytesModel,
    pair: int,
    shard: int,
)
    requires
        found.dom().finite(),
        private_pairs_from(dispatches, index, found) is Ok,
    ensures
        ({
            let all = private_pairs_from(dispatches, index, found)->Ok_0;
            &&& all.dom().finite()
            &&& extends(found, all)
            &&& index <= pair && pair + 1 < dispatches.len() && hands_off_locally(
                dispatches[pair],
                dispatches[pair + 1],
            ) && 0 <= shard < dispatches[pair].shards.len() ==> has_private(
                all,
                dispatches[pair],
                dispatches[pair + 1],
                dispatches[pair].shards[shard],
            )
        }),
    decreases dispatches.len() - index,
{
    if index + 1 < dispatches.len() {
        let producer = dispatches[index as int];
        let consumer = dispatches[index as int + 1];
        if hands_off_locally(producer, consumer) {
            lemma_private_shards(producer, consumer, 0, found);
            let next = private_shards_from(producer, consumer, 0, found)->Ok_0;
            lemma_private_pairs(dispatches, index + 1, next, pair, shard);
            let all = private_pairs_from(dispatches, index + 1, next)->Ok_0;
            if pair == index && 0 <= shard < producer.shards.len() {
                assert(has_private(next, producer, consumer, producer.shards[shard]));
                assert(has_private(all, producer, consumer, producer.shards[shard]));
            }
        } else {
            lemma_private_pairs(dispatches, index + 1, found, pair, shard);
        }
    }
}

/// Where one dispatch of an island hands its output to the next on the same device, the
/// island has memory there for exactly what the shard writes.
pub proof fn law_islands_have_memory_for_what_they_hand_on(
    island_index: usize,
    dispatches: Seq<VulkanDistributedDispatchPlanModel>,
    route: VulkanSharedResidentBufferRoute,
    phase: ExecutionPhase,
    island: VulkanPhysicalExecutionIslandPlanModel,
    pair: int,
    shard: int,
)
    requires
        forms_island(island_index, dispatches, route, phase, island),
        0 <= pair < dispatches.len() - 1,
        hands_off_locally(dispatches[pair], dispatches[pair + 1]),
        0 <= shard < dispatches[pair].shards.len(),
    ensures
        asks_for_memory(
            island,
            crate::execution_plans::VulkanPhysicalExecutionTransientMemoryKind::PrivateShardIntermediate,
            dispatches[pair].shards[shard].device_id,
            dispatches[pair].shards[shard].output_byte_count,
        ),
{
    let demand = island_demand(dispatches)->Ok_0;
    let private = private_pairs_from(dispatches, 0, Map::empty())->Ok_0;
    lemma_private_pairs(dispatches, 0, Map::empty(), pair, shard);
    let own = dispatches[pair].shards[shard];
    let activation = dispatches[pair].output_activation;
    let key = (
        own.device_id,
        (
            activation.component_id,
            (
                activation.slot,
                (dispatches[pair].dispatch_index, dispatches[pair + 1].dispatch_index),
            ),
        ),
    );
    let listing = ordered_listing::<(String, (String, (usize, (usize, usize)))), usize>(private);
    lemma_ordered_listing_exists::<(String, (String, (usize, (usize, usize)))), usize>(private);
    assert(lists_key(listing, key));
    let k = choose|k: int| 0 <= k < listing.len() && #[trigger] listing[k].0 == key;
    lemma_listed_at::<(String, (String, (usize, (usize, usize)))), usize>(listing, k);
    let shared = ordered_listing::<
        (String, (crate::execution_plans::VulkanDistributedActivationStorage, (String, usize))),
        usize,
    >(demand.activations).len();
    assert(island.transient_memory[shared + k].allocation_device_id == own.device_id);
}

} // verus!
