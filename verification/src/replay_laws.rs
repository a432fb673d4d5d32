//! Laws of what a measured execution must have in common with the component that it is
//! replayed for.
use vstd::prelude::*;

use crate::dispatch_laws::lemma_kept_place;
use crate::dispatch_runners::lemma_found_at;
use crate::exact_application::{
    checked_case, covers_participants, dispatches_applied_from, exact_shard, has_stray_shard,
    participants_applied_from, replayed_component, with_dispatch, with_islands,
};
use crate::exact_component::{
    all_routes, bound_devices_from, component_islands, dispatch_numbers, is_component_island,
    measured_transports, participants_of, route_identity, transport_step, DeviceIdentitiesModel,
    TransportModel,
};
use crate::exact_laws::{
    is_same_dispatch, is_same_plan, law_replay_changes_only_ownership, lemma_contracts_in_range,
    lemma_participants_keep,
};
use crate::exact_rebinding::{
    case_identity, is_place, participants_rebound_from, shards_rebound_from,
    VulkanExecutableIdentity,
};
use crate::execution_plans::{
    VulkanDistributedDispatchPlanModel, VulkanDistributedExecutionPlan,
    VulkanDistributedExecutionPlanModel, VulkanPhysicalExecutionIslandPlanModel,
    VulkanPhysicalExecutionTransportRouteModel,
};
use crate::dispatch_shards::VulkanDistributedDispatchShardModel;
use crate::islands::{fragment_bytes, shard_device_ids};
use crate::ordered::{lemma_members_listed, ordered_members};
use crate::placement::{
    VulkanPlacementDeviceExecutionIdentityModel, VulkanPlacementExecutionCaseIdentityModel,
    VulkanPlacementShardIdentityModel, VulkanPlacementTransportIdentityModel,
};
use crate::sequences::{fold_from, index_from, kept, sum_of};

verus! {

/// The case is replayed for the dispatches of a component, which gives a plan.
pub open spec fn is_replayed<
    I: Fn(&VulkanDistributedExecutionPlan, &Vec<usize>, &String, usize) -> VulkanExecutableIdentity,
>(
    identity: I,
    plan: VulkanDistributedExecutionPlanModel,
    component_id: Seq<char>,
    dispatch_indices: Seq<usize>,
    case: VulkanPlacementExecutionCaseIdentityModel,
    identities: DeviceIdentitiesModel,
    after: VulkanDistributedExecutionPlanModel,
) -> bool {
    replayed_component(identity, plan, component_id, dispatch_indices, case, identities) == (
        after,
        Ok::<(), Seq<char>>(()),
    )
}

/// The island belongs to the component and runs one of its dispatches.
pub open spec fn runs_component(
    plan: VulkanDistributedExecutionPlanModel,
    component_id: Seq<char>,
    dispatch_indices: Seq<usize>,
    island: VulkanPhysicalExecutionIslandPlanModel,
) -> bool {
    &&& island.component_id == component_id
    &&& exists|i: int, d: int|
        #![trigger island.dispatches[i], dispatch_indices[d]]
        0 <= i < island.dispatches.len() && 0 <= d < dispatch_indices.len()
            && island.dispatches[i].dispatch_index
            == plan.dispatches[dispatch_indices[d] as int].dispatch_index
}

/// The island at a place is the first one that runs the component.
pub open spec fn is_first_island(
    plan: VulkanDistributedExecutionPlanModel,
    component_id: Seq<char>,
    dispatch_indices: Seq<usize>,
    place: int,
) -> bool {
    &&& 0 <= place < plan.execution_islands.len()
    &&& runs_component(plan, component_id, dispatch_indices, plan.execution_islands[place])
    &&& forall|i: int|
        0 <= i < place ==> !runs_component(
            plan,
            component_id,
            dispatch_indices,
            #[trigger] plan.execution_islands[i],
        )
}

/// The island at a place is the last one that runs the component.
pub open spec fn is_last_island(
    plan: VulkanDistributedExecutionPlanModel,
    component_id: Seq<char>,
    dispatch_indices: Seq<usize>,
    place: int,
) -> bool {
    &&& 0 <= place < plan.execution_islands.len()
    &&& runs_component(plan, component_id, dispatch_indices, plan.execution_islands[place])
    &&& forall|i: int|
        place < i < plan.execution_islands.len() ==> !runs_component(
            plan,
            component_id,
            dispatch_indices,
            #[trigger] plan.execution_islands[i],
        )
}

/// The logical device is the physical one.
pub open spec fn is_bound_to(
    identities: DeviceIdentitiesModel,
    device_id: Seq<char>,
    physical_device_id: Seq<char>,
) -> bool {
    identities.contains_key(device_id) && identities[device_id].physical_device_id
        == physical_device_id
}

proof fn lemma_kept_first<T>(items: Seq<T>, condition: spec_fn(T) -> bool, place: int)
    requires
        0 <= place < items.len(),
        condition(items[place]),
        forall|i: int| 0 <= i < place ==> !condition(#[trigger] items[i]),
    ensures
        kept(items, condition).len() > 0,
        kept(items, condition)[0] == items[place],
    decreases items.len(),
{
    let rest = items.drop_last();
    if place < rest.len() {
        lemma_kept_first(rest, condition, place);
    } else if kept(rest, condition).len() > 0 {
        lemma_kept_place(rest, condition, 0);
        let k = choose|k: int| 0 <= k < rest.len() && rest[k] == kept(rest, condition)[0];
        assert(!condition(items[k]));
    }
}

proof fn lemma_kept_last<T>(items: Seq<T>, condition: spec_fn(T) -> bool, place: int)
    requires
        0 <= place < items.len(),
        condition(items[place]),
        forall|i: int| place < i < items.len() ==> !condition(#[trigger] items[i]),
    ensures
        kept(items, condition).len() > 0,
        kept(items, condition).last() == items[place],
    decreases items.len(),
{
    let rest = items.drop_last();
    if place < rest.len() {
        assert(!condition(items[items.len() - 1]));
        lemma_kept_last(rest, condition, place);
    }
}

proof fn lemma_kept_all<T>(items: Seq<T>, condition: spec_fn(T) -> bool, place: int)
    requires
        0 <= place < items.len(),
        condition(items[place]),
    ensures
        kept(items, condition).contains(items[place]),
    decreases items.len(),
{
    let rest = items.drop_last();
    let all = kept(items, condition);
    if place < rest.len() {
        lemma_kept_all(rest, condition, place);
        let k = choose|k: int|
            0 <= k < kept(rest, condition).len() && kept(rest, condition)[k] == items[place];
        assert(all[k] == items[place]);
    } else {
        assert(all[all.len() - 1] == items[place]);
    }
}

proof fn lemma_numbers(
    dispatches: Seq<VulkanDistributedDispatchPlanModel>,
    dispatch_indices: Seq<usize>,
    number: usize,
)
    ensures
        dispatch_numbers(dispatches, dispatch_indices).contains(number) <==> exists|d: int|
            0 <= d < dispatch_indices.len() && dispatches[(
            #[trigger] dispatch_indices[d]) as int].dispatch_index == number,
    decreases dispatch_indices.len(),
{
    if dispatch_indices.len() > 0 {
        let rest = dispatch_indices.drop_last();
        lemma_numbers(dispatches, rest, number);
        let last = dispatch_indices.len() - 1;
        if dispatch_numbers(dispatches, rest).contains(number) {
            let d = choose|d: int|
                0 <= d < rest.len() && dispatches[(#[trigger] rest[d]) as int].dispatch_index
                    == number;
            assert(dispatches[dispatch_indices[d] as int].dispatch_index == number);
        }
        if dispatches[dispatch_indices[last] as int].dispatch_index == number {
            assert(dispatch_numbers(dispatches, dispatch_indices).contains(number));
        }
        if exists|d: int|
            0 <= d < dispatch_indices.len() && dispatches[(
            #[trigger] dispatch_indices[d]) as int].dispatch_index == number {
            let d = choose|d: int|
                0 <= d < dispatch_indices.len() && dispatches[(
                #[trigger] dispatch_indices[d]) as int].dispatch_index == number;
            if d < last {
                assert(rest[d] == dispatch_indices[d]);
            }
        }
    }
}

proof fn lemma_runs_component(
    plan: VulkanDistributedExecutionPlanModel,
    component_id: Seq<char>,
    dispatch_indices: Seq<usize>,
    island: VulkanPhysicalExecutionIslandPlanModel,
)
    ensures
        is_component_island(component_id, dispatch_numbers(plan.dispatches, dispatch_indices))(
            island,
        ) <==> runs_component(plan, component_id, dispatch_indices, island),
{
    let numbers = dispatch_numbers(plan.dispatches, dispatch_indices);
    if runs_component(plan, component_id, dispatch_indices, island) {
        let (i, d) = choose|i: int, d: int|
            #![trigger island.dispatches[i], dispatch_indices[d]]
            0 <= i < island.dispatches.len() && 0 <= d < dispatch_indices.len()
                && island.dispatches[i].dispatch_index
                == plan.dispatches[dispatch_indices[d] as int].dispatch_index;
        lemma_numbers(plan.dispatches, dispatch_indices, island.dispatches[i].dispatch_index);
        assert(numbers.contains(island.dispatches[i].dispatch_index));
    }
    if is_component_island(component_id, numbers)(island) {
        let i = choose|i: int|
            0 <= i < island.dispatches.len() && numbers.contains(
                (#[trigger] island.dispatches[i]).dispatch_index,
            );
        lemma_numbers(plan.dispatches, dispatch_indices, island.dispatches[i].dispatch_index);
        let d = choose|d: int|
            0 <= d < dispatch_indices.len() && plan.dispatches[(
            #[trigger] dispatch_indices[d]) as int].dispatch_index
                == island.dispatches[i].dispatch_index;
        assert(island.dispatches[i].dispatch_index
            == plan.dispatches[dispatch_indices[d] as int].dispatch_index);
    }
}

/// The plan that a case is compared with is the replayed one but for what shards own.
proof fn lemma_replayed<
    I: Fn(&VulkanDistributedExecutionPlan, &Vec<usize>, &String, usize) -> VulkanExecutableIdentity,
>(
    identity: I,
    plan: VulkanDistributedExecutionPlanModel,
    component_id: Seq<char>,
    dispatch_indices: Seq<usize>,
    case: VulkanPlacementExecutionCaseIdentityModel,
    identities: DeviceIdentitiesModel,
    after: VulkanDistributedExecutionPlanModel,
)
    requires
        is_replayed(identity, plan, component_id, dispatch_indices, case, identities, after),
    ensures
        with_islands(plan, case) is Ok,
        checked_case(
            identity,
            with_islands(plan, case)->Ok_0,
            component_id,
            dispatch_indices,
            case,
            identities,
        ) is Ok,
        is_same_plan(with_islands(plan, case)->Ok_0, after),
        after.execution_islands == with_islands(plan, case)->Ok_0.execution_islands,
        forall|i: int|
            0 <= i < dispatch_indices.len() ==> #[trigger] dispatch_indices[i]
                < after.dispatches.len(),
{
    let islanded = with_islands(plan, case)->Ok_0;
    let islands = component_islands(islanded, component_id, dispatch_indices);
    let numbers = dispatch_numbers(islanded.dispatches, dispatch_indices);
    assert(islands.len() > 0);
    lemma_kept_place(
        islanded.execution_islands,
        is_component_island(component_id, numbers),
        0,
    );
    assert(islanded.execution_islands.len() > 0);
    law_replay_changes_only_ownership(
        identity,
        islanded,
        component_id,
        dispatch_indices,
        case,
        identities,
    );
    lemma_contracts_in_range(
        islanded.dispatches,
        dispatch_indices,
        component_id,
        0,
        Map::empty(),
    );
}

proof fn lemma_same_components(
    before: VulkanDistributedExecutionPlanModel,
    after: VulkanDistributedExecutionPlanModel,
    component_id: Seq<char>,
    dispatch_indices: Seq<usize>,
    island: VulkanPhysicalExecutionIslandPlanModel,
)
    requires
        is_same_plan(before, after),
        forall|i: int|
            0 <= i < dispatch_indices.len() ==> #[trigger] dispatch_indices[i]
                < after.dispatches.len(),
    ensures
        runs_component(before, component_id, dispatch_indices, island) <==> runs_component(
            after,
            component_id,
            dispatch_indices,
            island,
        ),
        is_component_island(component_id, dispatch_numbers(before.dispatches, dispatch_indices))(
            island,
        ) <==> runs_component(after, component_id, dispatch_indices, island),
{
    lemma_runs_component(before, component_id, dispatch_indices, island);
    assert forall|d: int| 0 <= d < dispatch_indices.len() implies before.dispatches[(
    #[trigger] dispatch_indices[d]) as int].dispatch_index
        == after.dispatches[dispatch_indices[d] as int].dispatch_index by {
        assert(is_same_dispatch(
            before.dispatches[dispatch_indices[d] as int],
            after.dispatches[dispatch_indices[d] as int],
        ));
    }
}

/// A case is replayed only where it was measured between the same physical devices: every
/// island of the component is owned by the measured owner, the first one is entered on the
/// device and with the bytes that were measured as input, and the last one is left on the
/// device and with the bytes that were measured as output.
pub proof fn law_replayed_cases_have_the_same_endpoints<
    I: Fn(&VulkanDistributedExecutionPlan, &Vec<usize>, &String, usize) -> VulkanExecutableIdentity,
>(
    identity: I,
    plan: VulkanDistributedExecutionPlanModel,
    component_id: Seq<char>,
    dispatch_indices: Seq<usize>,
    case: VulkanPlacementExecutionCaseIdentityModel,
    identities: DeviceIdentitiesModel,
    after: VulkanDistributedExecutionPlanModel,
    first: int,
    last: int,
)
    requires
        is_replayed(identity, plan, component_id, dispatch_indices, case, identities, after),
        is_first_island(after, component_id, dispatch_indices, first),
        is_last_island(after, component_id, dispatch_indices, last),
    ensures
        is_bound_to(
            identities,
            after.execution_islands[first].entry_device_id,
            case.input_physical_device_id,
        ),
        is_bound_to(
            identities,
            after.execution_islands[last].exit_device_id,
            case.output_physical_device_id,
        ),
        after.execution_islands[first].dispatches[0].input_byte_capacity
            == case.behavior.shape.input_byte_capacity,
        after.execution_islands[last].dispatches.last().output_byte_capacity
            == case.behavior.shape.output_byte_capacity,
        forall|i: int|
            0 <= i < after.execution_islands.len() && runs_component(
                after,
                component_id,
                dispatch_indices,
                #[trigger] after.execution_islands[i],
            ) ==> is_bound_to(
                identities,
                after.execution_islands[i].owner_device_id,
                case.owner_physical_device_id,
            ),
{
    lemma_replayed(identity, plan, component_id, dispatch_indices, case, identities, after);
    let islanded = with_islands(plan, case)->Ok_0;
    let condition = is_component_island(
        component_id,
        dispatch_numbers(islanded.dispatches, dispatch_indices),
    );
    assert forall|i: int| 0 <= i < after.execution_islands.len() implies (condition(
        #[trigger] after.execution_islands[i],
    ) <==> runs_component(
        after,
        component_id,
        dispatch_indices,
        after.execution_islands[i],
    )) by {
        lemma_same_components(
            islanded,
            after,
            component_id,
            dispatch_indices,
            after.execution_islands[i],
        );
    }
    lemma_kept_first(after.execution_islands, condition, first);
    lemma_kept_last(after.execution_islands, condition, last);
    let islands = component_islands(islanded, component_id, dispatch_indices);
    assert forall|i: int|
        0 <= i < after.execution_islands.len() && runs_component(
            after,
            component_id,
            dispatch_indices,
            #[trigger] after.execution_islands[i],
        ) implies is_bound_to(
        identities,
        after.execution_islands[i].owner_device_id,
        case.owner_physical_device_id,
    ) by {
        lemma_kept_all(after.execution_islands, condition, i);
        let k = choose|k: int| 0 <= k < islands.len() && islands[k] == after.execution_islands[i];
        assert(islands[k].owner_device_id == islands[0].owner_device_id);
    }
}

/// A case is replayed only where some island runs the component.
pub proof fn law_replayed_cases_have_islands<
    I: Fn(&VulkanDistributedExecutionPlan, &Vec<usize>, &String, usize) -> VulkanExecutableIdentity,
>(
    identity: I,
    plan: VulkanDistributedExecutionPlanModel,
    component_id: Seq<char>,
    dispatch_indices: Seq<usize>,
    case: VulkanPlacementExecutionCaseIdentityModel,
    identities: DeviceIdentitiesModel,
    after: VulkanDistributedExecutionPlanModel,
)
    requires
        is_replayed(identity, plan, component_id, dispatch_indices, case, identities, after),
    ensures
        dispatch_indices.len() > 0,
        case.devices.len() >= 2,
        case.shards.len() > 0,
        exists|i: int|
            0 <= i < after.execution_islands.len() && runs_component(
                after,
                component_id,
                dispatch_indices,
                #[trigger] after.execution_islands[i],
            ),
{
    lemma_replayed(identity, plan, component_id, dispatch_indices, case, identities, after);
    let islanded = with_islands(plan, case)->Ok_0;
    let condition = is_component_island(
        component_id,
        dispatch_numbers(islanded.dispatches, dispatch_indices),
    );
    let islands = component_islands(islanded, component_id, dispatch_indices);
    lemma_kept_place(islanded.execution_islands, condition, 0);
    let i = choose|i: int|
        0 <= i < islanded.execution_islands.len() && islanded.execution_islands[i] == islands[0];
    lemma_same_components(
        islanded,
        after,
        component_id,
        dispatch_indices,
        after.execution_islands[i],
    );
}

/// Some shard of the dispatches runs on a device.
pub open spec fn takes_part(
    plan: VulkanDistributedExecutionPlanModel,
    dispatch_indices: Seq<usize>,
    device_id: Seq<char>,
) -> bool {
    exists|d: int, s: int|
        #![trigger dispatch_indices[d], plan.dispatches[dispatch_indices[d] as int].shards[s]]
        0 <= d < dispatch_indices.len() && 0 <= s
            < plan.dispatches[dispatch_indices[d] as int].shards.len()
            && plan.dispatches[dispatch_indices[d] as int].shards[s].device_id == device_id
}

proof fn lemma_participants(
    plan: VulkanDistributedExecutionPlanModel,
    dispatch_indices: Seq<usize>,
    device_id: Seq<char>,
)
    ensures
        participants_of(plan.dispatches, dispatch_indices).finite(),
        participants_of(plan.dispatches, dispatch_indices).contains(device_id) <==> takes_part(
            plan,
            dispatch_indices,
            device_id,
        ),
    decreases dispatch_indices.len(),
{
    if dispatch_indices.len() > 0 {
        let rest = dispatch_indices.drop_last();
        lemma_participants(plan, rest, device_id);
        let last = dispatch_indices.len() - 1;
        let ids = shard_device_ids(plan.dispatches[dispatch_indices[last] as int].shards);
        ids.lemma_cardinality_of_set();
        if participants_of(plan.dispatches, rest).contains(device_id) {
            let (d, s) = choose|d: int, s: int|
                #![trigger rest[d], plan.dispatches[rest[d] as int].shards[s]]
                0 <= d < rest.len() && 0 <= s < plan.dispatches[rest[d] as int].shards.len()
                    && plan.dispatches[rest[d] as int].shards[s].device_id == device_id;
            assert(plan.dispatches[dispatch_indices[d] as int].shards[s].device_id == device_id);
        }
        if ids.to_set().contains(device_id) {
            let s = choose|s: int| 0 <= s < ids.len() && ids[s] == device_id;
            assert(plan.dispatches[dispatch_indices[last] as int].shards[s].device_id
                == device_id);
        }
        if takes_part(plan, dispatch_indices, device_id) {
            let (d, s) = choose|d: int, s: int|
                #![trigger dispatch_indices[d], plan.dispatches[dispatch_indices[d] as int].shards[s]]
                0 <= d < dispatch_indices.len() && 0 <= s
                    < plan.dispatches[dispatch_indices[d] as int].shards.len()
                    && plan.dispatches[dispatch_indices[d] as int].shards[s].device_id
                    == device_id;
            if d < last {
                assert(rest[d] == dispatch_indices[d]);
                assert(takes_part(plan, rest, device_id));
            } else {
                assert(ids[s] == device_id);
            }
        }
    }
}

/// The logical device is the physical one with a driver.
pub open spec fn is_device(
    identities: DeviceIdentitiesModel,
    device_id: Seq<char>,
    identity: VulkanPlacementDeviceExecutionIdentityModel,
) -> bool {
    identities.contains_key(device_id) && identities[device_id] == identity
}

/// The physical device with a driver is one that takes part.
pub open spec fn is_some_participant(
    plan: VulkanDistributedExecutionPlanModel,
    dispatch_indices: Seq<usize>,
    identities: DeviceIdentitiesModel,
    identity: VulkanPlacementDeviceExecutionIdentityModel,
) -> bool {
    exists|device_id: Seq<char>| #[trigger]
        takes_part(plan, dispatch_indices, device_id) && is_device(identities, device_id, identity)
}

proof fn lemma_devices_bound(
    participants: Seq<Seq<char>>,
    identities: DeviceIdentitiesModel,
    component_id: Seq<char>,
    index: nat,
    found: Seq<VulkanPlacementDeviceExecutionIdentityModel>,
)
    requires
        found.len() == index,
        index <= participants.len(),
        forall|i: int|
            0 <= i < index ==> is_device(identities, participants[i], #[trigger] found[i]),
        bound_devices_from(participants, identities, component_id, index, found) is Ok,
    ensures
        ({
            let all = bound_devices_from(participants, identities, component_id, index, found)->Ok_0;
            &&& all.len() == participants.len()
            &&& forall|i: int|
                0 <= i < all.len() ==> is_device(identities, participants[i], #[trigger] all[i])
        }),
    decreases participants.len() - index,
{
    if index < participants.len() {
        lemma_devices_bound(
            participants,
            identities,
            component_id,
            index + 1,
            found.push(identities[participants[index as int]]),
        );
    }
}

/// A case is replayed only on the devices that it was measured on, drivers included: every
/// device that takes part is one of them, and every one of them takes part.
pub proof fn law_replayed_cases_have_the_same_devices<
    I: Fn(&VulkanDistributedExecutionPlan, &Vec<usize>, &String, usize) -> VulkanExecutableIdentity,
>(
    identity: I,
    plan: VulkanDistributedExecutionPlanModel,
    component_id: Seq<char>,
    dispatch_indices: Seq<usize>,
    case: VulkanPlacementExecutionCaseIdentityModel,
    identities: DeviceIdentitiesModel,
    after: VulkanDistributedExecutionPlanModel,
)
    requires
        is_replayed(identity, plan, component_id, dispatch_indices, case, identities, after),
    ensures
        forall|device_id: Seq<char>| #[trigger]
            takes_part(after, dispatch_indices, device_id) ==> identities.contains_key(device_id)
                && case.devices.contains(identities[device_id]),
        forall|i: int|
            0 <= i < case.devices.len() ==> is_some_participant(
                after,
                dispatch_indices,
                identities,
                #[trigger] case.devices[i],
            ),
{
    lemma_replayed(identity, plan, component_id, dispatch_indices, case, identities, after);
    let islanded = with_islands(plan, case)->Ok_0;
    let set = participants_of(islanded.dispatches, dispatch_indices);
    let participants = ordered_members::<String>(set);
    lemma_participants(islanded, dispatch_indices, Seq::empty());
    lemma_members_listed::<String>(set);
    lemma_devices_bound(participants, identities, component_id, 0, Seq::empty());
    let devices = bound_devices_from(
        participants,
        identities,
        component_id,
        0,
        Seq::empty(),
    )->Ok_0;
    assert(devices.to_set() == case.devices.to_set());
    assert forall|device_id: Seq<char>| #[trigger]
        takes_part(after, dispatch_indices, device_id) implies identities.contains_key(device_id)
        && case.devices.contains(identities[device_id]) by {
        lemma_same_participants(islanded, after, dispatch_indices, device_id);
        lemma_participants(islanded, dispatch_indices, device_id);
        assert(participants.to_set().contains(device_id));
        let k = choose|k: int| 0 <= k < participants.len() && participants[k] == device_id;
        assert(devices[k] == identities[device_id]);
        assert(devices.to_set().contains(identities[device_id]));
        assert(case.devices.to_set().contains(identities[device_id]));
    }
    assert forall|i: int| 0 <= i < case.devices.len() implies is_some_participant(
        after,
        dispatch_indices,
        identities,
        #[trigger] case.devices[i],
    ) by {
        assert(case.devices.to_set().contains(case.devices[i]));
        assert(devices.to_set().contains(case.devices[i]));
        let k = choose|k: int| 0 <= k < devices.len() && devices[k] == case.devices[i];
        assert(participants.to_set().contains(participants[k]));
        lemma_participants(islanded, dispatch_indices, participants[k]);
        lemma_same_participants(islanded, after, dispatch_indices, participants[k]);
        assert(takes_part(after, dispatch_indices, participants[k]));
    }
}

proof fn lemma_same_participants(
    before: VulkanDistributedExecutionPlanModel,
    after: VulkanDistributedExecutionPlanModel,
    dispatch_indices: Seq<usize>,
    device_id: Seq<char>,
)
    requires
        is_same_plan(before, after),
        forall|i: int|
            0 <= i < dispatch_indices.len() ==> #[trigger] dispatch_indices[i]
                < after.dispatches.len(),
    ensures
        takes_part(before, dispatch_indices, device_id) <==> takes_part(
            after,
            dispatch_indices,
            device_id,
        ),
{
    assert forall|d: int| 0 <= d < dispatch_indices.len() implies is_same_dispatch(
        before.dispatches[(#[trigger] dispatch_indices[d]) as int],
        after.dispatches[dispatch_indices[d] as int],
    ) by {}
    if takes_part(before, dispatch_indices, device_id) {
        let (d, s) = choose|d: int, s: int|
            #![trigger dispatch_indices[d], before.dispatches[dispatch_indices[d] as int].shards[s]]
            0 <= d < dispatch_indices.len() && 0 <= s
                < before.dispatches[dispatch_indices[d] as int].shards.len()
                && before.dispatches[dispatch_indices[d] as int].shards[s].device_id == device_id;
        assert(after.dispatches[dispatch_indices[d] as int].shards[s].device_id == device_id);
    }
    if takes_part(after, dispatch_indices, device_id) {
        let (d, s) = choose|d: int, s: int|
            #![trigger dispatch_indices[d], after.dispatches[dispatch_indices[d] as int].shards[s]]
            0 <= d < dispatch_indices.len() && 0 <= s
                < after.dispatches[dispatch_indices[d] as int].shards.len()
                && after.dispatches[dispatch_indices[d] as int].shards[s].device_id == device_id;
        assert(before.dispatches[dispatch_indices[d] as int].shards[s].device_id == device_id);
    }
}

/// The island at a place runs the component and exchanges bytes over a route.
pub open spec fn exchanges_over(
    plan: VulkanDistributedExecutionPlanModel,
    component_id: Seq<char>,
    dispatch_indices: Seq<usize>,
    island: int,
    route: int,
) -> bool {
    &&& 0 <= island < plan.execution_islands.len()
    &&& runs_component(plan, component_id, dispatch_indices, plan.execution_islands[island])
    &&& 0 <= route < plan.execution_islands[island].transport_routes.len()
}

/// The measured exchange is the one over a route: between the same physical devices, of as
/// many bytes, and through the same memory.
pub open spec fn is_measured_over(
    plan: VulkanDistributedExecutionPlanModel,
    identities: DeviceIdentitiesModel,
    route: VulkanPhysicalExecutionTransportRouteModel,
    transport: VulkanPlacementTransportIdentityModel,
) -> bool {
    &&& is_bound_to(identities, route.source_device_id, transport.source_physical_device_id)
    &&& is_bound_to(
        identities,
        route.destination_device_id,
        transport.destination_physical_device_id,
    )
    &&& transport.byte_capacity == route.byte_capacity
    &&& transport.route == if plan.shared_activation_route is ExternalDeviceLocal {
        "external_device_local"@
    } else {
        "shared_host"@
    }
}

/// The route is one of an island of a list.
pub open spec fn has_route(
    islands: Seq<VulkanPhysicalExecutionIslandPlanModel>,
    route: VulkanPhysicalExecutionTransportRouteModel,
) -> bool {
    exists|i: int|
        0 <= i < islands.len() && (#[trigger] islands[i]).transport_routes.contains(route)
}

proof fn lemma_routes(
    islands: Seq<VulkanPhysicalExecutionIslandPlanModel>,
    route: VulkanPhysicalExecutionTransportRouteModel,
)
    ensures
        all_routes(islands).contains(route) <==> has_route(islands, route),
    decreases islands.len(),
{
    if islands.len() > 0 {
        let rest = islands.drop_last();
        lemma_routes(rest, route);
        let earlier = all_routes(rest);
        let own = islands.last().transport_routes;
        let all = all_routes(islands);
        if all.contains(route) {
            let k = choose|k: int| 0 <= k < all.len() && all[k] == route;
            if k < earlier.len() {
                assert(earlier[k] == route);
                let i = choose|i: int|
                    0 <= i < rest.len() && (#[trigger] rest[i]).transport_routes.contains(route);
                assert(islands[i].transport_routes.contains(route));
            } else {
                assert(own[k - earlier.len()] == route);
                assert(islands[islands.len() - 1].transport_routes.contains(route));
            }
        }
        if has_route(islands, route) {
            let i = choose|i: int|
                0 <= i < islands.len() && (
                #[trigger] islands[i]).transport_routes.contains(route);
            if i < rest.len() {
                assert(rest[i].transport_routes.contains(route));
                let k = choose|k: int| 0 <= k < earlier.len() && earlier[k] == route;
                assert(all[k] == route);
            } else {
                let k = choose|k: int| 0 <= k < own.len() && own[k] == route;
                assert(all[earlier.len() + k] == route);
            }
        }
    }
}

/// What devices exchange over a route.
pub open spec fn exchanged(
    identities: DeviceIdentitiesModel,
    route_name: Seq<char>,
    route: VulkanPhysicalExecutionTransportRouteModel,
) -> TransportModel {
    (
        identities[route.source_device_id].physical_device_id,
        (
            identities[route.destination_device_id].physical_device_id,
            (route.byte_capacity, route_name),
        ),
    )
}

/// One of the first routes of a list gives an exchange.
pub open spec fn is_exchanged(
    identities: DeviceIdentitiesModel,
    route_name: Seq<char>,
    routes: Seq<VulkanPhysicalExecutionTransportRouteModel>,
    count: int,
    transport: TransportModel,
) -> bool {
    exists|i: int|
        0 <= i < count && exchanged(identities, route_name, #[trigger] routes[i]) == transport
}

proof fn lemma_transports_found(
    identities: DeviceIdentitiesModel,
    component_id: Seq<char>,
    route_name: Seq<char>,
    routes: Seq<VulkanPhysicalExecutionTransportRouteModel>,
    index: nat,
    found: Set<TransportModel>,
)
    requires
        index <= routes.len(),
        forall|transport: TransportModel| #[trigger]
            found.contains(transport) <==> is_exchanged(
                identities,
                route_name,
                routes,
                index as int,
                transport,
            ),
        forall|i: int|
            0 <= i < index ==> identities.contains_key((#[trigger] routes[i]).source_device_id)
                && identities.contains_key(routes[i].destination_device_id),
        fold_from(routes, index, found, transport_step(identities, component_id, route_name)) is Ok,
    ensures
        ({
            let all = fold_from(
                routes,
                index,
                found,
                transport_step(identities, component_id, route_name),
            )->Ok_0;
            &&& forall|transport: TransportModel| #[trigger]
                all.contains(transport) <==> is_exchanged(
                    identities,
                    route_name,
                    routes,
                    routes.len() as int,
                    transport,
                )
            &&& forall|i: int|
                0 <= i < routes.len() ==> identities.contains_key(
                    (#[trigger] routes[i]).source_device_id,
                ) && identities.contains_key(routes[i].destination_device_id)
        }),
    decreases routes.len() - index,
{
    if index < routes.len() {
        let route = routes[index as int];
        let next = found.insert(exchanged(identities, route_name, route));
        assert forall|transport: TransportModel| #[trigger]
            next.contains(transport) <==> is_exchanged(
                identities,
                route_name,
                routes,
                index as int + 1,
                transport,
            ) by {
            if is_exchanged(identities, route_name, routes, index as int, transport) {
                let i = choose|i: int|
                    0 <= i < index && exchanged(identities, route_name, #[trigger] routes[i])
                        == transport;
                assert(exchanged(identities, route_name, routes[i]) == transport);
            }
            if is_exchanged(identities, route_name, routes, index as int + 1, transport) {
                let i = choose|i: int|
                    0 <= i < index + 1 && exchanged(identities, route_name, #[trigger] routes[i])
                        == transport;
                if i < index {
                    assert(is_exchanged(identities, route_name, routes, index as int, transport));
                }
            }
            assert(exchanged(identities, route_name, routes[index as int]) == exchanged(
                identities,
                route_name,
                route,
            ));
            assert(found.contains(transport) <==> is_exchanged(
                identities,
                route_name,
                routes,
                index as int,
                transport,
            ));
        }
        lemma_transports_found(
            identities,
            component_id,
            route_name,
            routes,
            index + 1,
            next,
        );
    }
}

/// The measured exchange as it is compared.
pub open spec fn as_exchange(transport: VulkanPlacementTransportIdentityModel) -> TransportModel {
    (
        transport.source_physical_device_id,
        (
            transport.destination_physical_device_id,
            (transport.byte_capacity, transport.route),
        ),
    )
}

proof fn lemma_transports_measured(
    transports: Seq<VulkanPlacementTransportIdentityModel>,
    transport: TransportModel,
)
    ensures
        measured_transports(transports).contains(transport) <==> exists|t: int|
            0 <= t < transports.len() && as_exchange(#[trigger] transports[t]) == transport,
    decreases transports.len(),
{
    if transports.len() > 0 {
        let rest = transports.drop_last();
        lemma_transports_measured(rest, transport);
        if measured_transports(rest).contains(transport) {
            let t = choose|t: int|
                0 <= t < rest.len() && as_exchange(#[trigger] rest[t]) == transport;
            assert(as_exchange(transports[t]) == transport);
        }
        if as_exchange(transports.last()) == transport {
            assert(as_exchange(transports[transports.len() - 1]) == transport);
        }
        if exists|t: int|
            0 <= t < transports.len() && as_exchange(#[trigger] transports[t]) == transport {
            let t = choose|t: int|
                0 <= t < transports.len() && as_exchange(#[trigger] transports[t]) == transport;
            if t < rest.len() {
                assert(as_exchange(rest[t]) == transport);
            }
        }
    }
}

/// Some measured exchange is the one over a route.
pub open spec fn is_some_measured(
    plan: VulkanDistributedExecutionPlanModel,
    identities: DeviceIdentitiesModel,
    route: VulkanPhysicalExecutionTransportRouteModel,
    transports: Seq<VulkanPlacementTransportIdentityModel>,
) -> bool {
    exists|t: int|
        0 <= t < transports.len() && is_measured_over(
            plan,
            identities,
            route,
            #[trigger] transports[t],
        )
}

/// Some island that runs the component has a route over which an exchange was measured.
pub open spec fn is_over_some_route(
    plan: VulkanDistributedExecutionPlanModel,
    component_id: Seq<char>,
    dispatch_indices: Seq<usize>,
    identities: DeviceIdentitiesModel,
    transport: VulkanPlacementTransportIdentityModel,
) -> bool {
    exists|i: int, r: int| #[trigger]
        exchanges_over(plan, component_id, dispatch_indices, i, r) && is_measured_over(
            plan,
            identities,
            plan.execution_islands[i].transport_routes[r],
            transport,
        )
}

/// A case is replayed only where devices exchange what they exchanged when it was measured:
/// every route of the component was measured, and every measured exchange is over one.
pub proof fn law_replayed_cases_exchange_the_same<
    I: Fn(&VulkanDistributedExecutionPlan, &Vec<usize>, &String, usize) -> VulkanExecutableIdentity,
>(
    identity: I,
    plan: VulkanDistributedExecutionPlanModel,
    component_id: Seq<char>,
    dispatch_indices: Seq<usize>,
    case: VulkanPlacementExecutionCaseIdentityModel,
    identities: DeviceIdentitiesModel,
    after: VulkanDistributedExecutionPlanModel,
)
    requires
        is_replayed(identity, plan, component_id, dispatch_indices, case, identities, after),
    ensures
        forall|i: int, r: int| #[trigger]
            exchanges_over(after, component_id, dispatch_indices, i, r) ==> is_some_measured(
                after,
                identities,
                after.execution_islands[i].transport_routes[r],
                case.transports,
            ),
        forall|t: int|
            0 <= t < case.transports.len() ==> is_over_some_route(
                after,
                component_id,
                dispatch_indices,
                identities,
                #[trigger] case.transports[t],
            ),
{
    lemma_replayed(identity, plan, component_id, dispatch_indices, case, identities, after);
    let islanded = with_islands(plan, case)->Ok_0;
    let condition = is_component_island(
        component_id,
        dispatch_numbers(islanded.dispatches, dispatch_indices),
    );
    let islands = component_islands(islanded, component_id, dispatch_indices);
    let routes = all_routes(islands);
    let route_name = route_identity(islanded.shared_activation_route);
    lemma_transports_found(identities, component_id, route_name, routes, 0, Set::empty());
    let found = fold_from(
        routes,
        0,
        Set::empty(),
        transport_step(identities, component_id, route_name),
    )->Ok_0;
    assert(found == measured_transports(case.transports));
    assert forall|i: int, r: int| #[trigger]
        exchanges_over(after, component_id, dispatch_indices, i, r) implies is_some_measured(
        after,
        identities,
        after.execution_islands[i].transport_routes[r],
        case.transports,
    ) by {
        let island = after.execution_islands[i];
        let route = island.transport_routes[r];
        lemma_same_components(islanded, after, component_id, dispatch_indices, island);
        lemma_kept_all(after.execution_islands, condition, i);
        let k = choose|k: int| 0 <= k < islands.len() && islands[k] == island;
        assert(islands[k].transport_routes.contains(route));
        lemma_routes(islands, route);
        let n = choose|n: int| 0 <= n < routes.len() && routes[n] == route;
        let transport = exchanged(identities, route_name, routes[n]);
        assert(is_exchanged(identities, route_name, routes, routes.len() as int, transport));
        assert(found.contains(transport));
        lemma_transports_measured(case.transports, transport);
        let t = choose|t: int|
            0 <= t < case.transports.len() && as_exchange(#[trigger] case.transports[t])
                == transport;
        assert(is_measured_over(after, identities, route, case.transports[t]));
    }
    assert forall|t: int| 0 <= t < case.transports.len() implies is_over_some_route(
        after,
        component_id,
        dispatch_indices,
        identities,
        #[trigger] case.transports[t],
    ) by {
        let transport = as_exchange(case.transports[t]);
        lemma_transports_measured(case.transports, transport);
        assert(found.contains(transport));
        let n = choose|n: int|
            0 <= n < routes.len() && exchanged(identities, route_name, #[trigger] routes[n])
                == transport;
        let route = routes[n];
        lemma_routes(islands, route);
        assert(routes.contains(route));
        let k = choose|k: int|
            0 <= k < islands.len() && (#[trigger] islands[k]).transport_routes.contains(route);
        lemma_kept_place(islanded.execution_islands, condition, k);
        let i = choose|i: int|
            0 <= i < islanded.execution_islands.len() && islanded.execution_islands[i]
                == islands[k];
        let island = after.execution_islands[i];
        lemma_same_components(islanded, after, component_id, dispatch_indices, island);
        let r = choose|r: int|
            0 <= r < island.transport_routes.len() && island.transport_routes[r] == route;
        assert(exchanges_over(after, component_id, dispatch_indices, i, r));
    }
}

/// The shards are those before but for the fragments that they name.
pub open spec fn are_relabelled(
    before: Seq<VulkanPlacementShardIdentityModel>,
    after: Seq<VulkanPlacementShardIdentityModel>,
) -> bool {
    &&& after.len() == before.len()
    &&& forall|i: int|
        0 <= i < before.len() ==> #[trigger] after[i] == (VulkanPlacementShardIdentityModel {
            selected_resource_fragments_by_partition: after[i].selected_resource_fragments_by_partition,
            ..before[i]
        })
}

proof fn lemma_participants_relabel(
    dispatch: VulkanDistributedDispatchPlanModel,
    component_id: Seq<char>,
    dispatch_ordinal: usize,
    index: nat,
    shards: Seq<VulkanPlacementShardIdentityModel>,
)
    requires
        participants_rebound_from(dispatch, component_id, dispatch_ordinal, index, shards) is Ok,
    ensures
        are_relabelled(
            shards,
            participants_rebound_from(
                dispatch,
                component_id,
                dispatch_ordinal,
                index,
                shards,
            )->Ok_0,
        ),
    decreases dispatch.shards.len() - index,
{
    if index < dispatch.shards.len() {
        let condition = is_place(dispatch_ordinal, index as usize);
        lemma_found_at(shards, 0, condition);
        let place = index_from(shards, 0, condition)->0 as int;
        let fragments = crate::exact_coverage::runtime_fragments(
            dispatch.selected_resource_partitions,
            dispatch.shards[index as int],
        )->Ok_0;
        let next = shards.update(
            place,
            VulkanPlacementShardIdentityModel {
                selected_resource_fragments_by_partition: fragments,
                ..shards[place]
            },
        );
        lemma_participants_relabel(dispatch, component_id, dispatch_ordinal, index + 1, next);
        let all = participants_rebound_from(
            dispatch,
            component_id,
            dispatch_ordinal,
            index + 1,
            next,
        )->Ok_0;
        assert forall|i: int| 0 <= i < shards.len() implies #[trigger] all[i] == (
        VulkanPlacementShardIdentityModel {
            selected_resource_fragments_by_partition: all[i].selected_resource_fragments_by_partition,
            ..shards[i]
        }) by {
            assert(next[i] == (VulkanPlacementShardIdentityModel {
                selected_resource_fragments_by_partition: next[i].selected_resource_fragments_by_partition,
                ..shards[i]
            }));
        }
    }
}

proof fn lemma_shards_relabel(
    dispatches: Seq<VulkanDistributedDispatchPlanModel>,
    dispatch_indices: Seq<usize>,
    component_id: Seq<char>,
    ordinal: nat,
    shards: Seq<VulkanPlacementShardIdentityModel>,
)
    requires
        shards_rebound_from(dispatches, dispatch_indices, component_id, ordinal, shards) is Ok,
    ensures
        are_relabelled(
            shards,
            shards_rebound_from(
                dispatches,
                dispatch_indices,
                component_id,
                ordinal,
                shards,
            )->Ok_0,
        ),
    decreases dispatch_indices.len() - ordinal,
{
    if ordinal < dispatch_indices.len() {
        let dispatch = dispatches[dispatch_indices[ordinal as int] as int];
        lemma_participants_relabel(dispatch, component_id, ordinal as usize, 0, shards);
        let next = participants_rebound_from(
            dispatch,
            component_id,
            ordinal as usize,
            0,
            shards,
        )->Ok_0;
        lemma_shards_relabel(dispatches, dispatch_indices, component_id, ordinal + 1, next);
        let all = shards_rebound_from(
            dispatches,
            dispatch_indices,
            component_id,
            ordinal + 1,
            next,
        )->Ok_0;
        assert forall|i: int| 0 <= i < shards.len() implies #[trigger] all[i] == (
        VulkanPlacementShardIdentityModel {
            selected_resource_fragments_by_partition: all[i].selected_resource_fragments_by_partition,
            ..shards[i]
        }) by {
            assert(next[i] == (VulkanPlacementShardIdentityModel {
                selected_resource_fragments_by_partition: next[i].selected_resource_fragments_by_partition,
                ..shards[i]
            }));
        }
    }
}

/// The measured shard is the shard of a dispatch: on the same physical device, with the same
/// rows, the same distribution and as many parameter bytes.
pub open spec fn is_measured_shard(
    dispatch: VulkanDistributedDispatchPlanModel,
    shard: VulkanDistributedDispatchShardModel,
    identities: DeviceIdentitiesModel,
    measured: VulkanPlacementShardIdentityModel,
) -> bool {
    &&& is_bound_to(identities, shard.device_id, measured.physical_device_id)
    &&& measured.logical_start == shard.row_start
    &&& measured.logical_count == shard.row_count
    &&& measured.parameter_bytes == sum_of(shard.parameters, fragment_bytes())
    &&& dispatch.distribution is OutputRows ==> measured.distribution == "output_rows"@
    &&& dispatch.distribution is InputColumns ==> measured.distribution == "input_columns"@
    &&& dispatch.distribution is ExpertRange ==> measured.distribution == "expert_range"@
}

proof fn lemma_participants_measured(
    dispatch: VulkanDistributedDispatchPlanModel,
    component_id: Seq<char>,
    dispatch_ordinal: usize,
    shards: Seq<VulkanPlacementShardIdentityModel>,
    identities: DeviceIdentitiesModel,
    index: nat,
    participant: int,
)
    requires
        participants_applied_from(
            dispatch,
            component_id,
            dispatch_ordinal,
            shards,
            identities,
            index,
        ).1 is Ok,
        index <= participant < dispatch.shards.len(),
    ensures
        is_measured_shard(
            dispatch,
            dispatch.shards[participant],
            identities,
            exact_shard(shards, dispatch_ordinal, participant as usize),
        ),
    decreases dispatch.shards.len() - index,
{
    if index < participant {
        let shard = dispatch.shards[index as int];
        let exact = exact_shard(shards, dispatch_ordinal, index as usize);
        let next = VulkanDistributedDispatchPlanModel {
            shards: dispatch.shards.update(
                index as int,
                VulkanDistributedDispatchShardModel {
                    selected_resource_indices: crate::exact_application::owned_by_selector(
                        dispatch.selected_resource_partitions,
                        exact.selected_resource_indices_by_partition,
                    ),
                    ..shard
                },
            ),
            ..dispatch
        };
        lemma_participants_measured(
            next,
            component_id,
            dispatch_ordinal,
            shards,
            identities,
            index + 1,
            participant,
        );
        assert(next.shards[participant] == dispatch.shards[participant]);
    }
}

proof fn lemma_dispatches_measured(
    plan: VulkanDistributedExecutionPlanModel,
    component_id: Seq<char>,
    dispatch_indices: Seq<usize>,
    shards: Seq<VulkanPlacementShardIdentityModel>,
    identities: DeviceIdentitiesModel,
    start: nat,
    ordinal: int,
    participant: int,
)
    requires
        forall|i: int|
            0 <= i < dispatch_indices.len() ==> #[trigger] dispatch_indices[i]
                < plan.dispatches.len(),
        dispatches_applied_from(
            plan,
            component_id,
            dispatch_indices,
            shards,
            identities,
            start,
        ).1 is Ok,
        start <= ordinal < dispatch_indices.len(),
        0 <= participant < plan.dispatches[dispatch_indices[ordinal] as int].shards.len(),
    ensures
        covers_participants(
            shards,
            ordinal as usize,
            plan.dispatches[dispatch_indices[ordinal] as int].shards.len(),
        ),
        is_measured_shard(
            plan.dispatches[dispatch_indices[ordinal] as int],
            plan.dispatches[dispatch_indices[ordinal] as int].shards[participant],
            identities,
            exact_shard(shards, ordinal as usize, participant as usize),
        ),
    decreases dispatch_indices.len() - start,
{
    let place = dispatch_indices[start as int] as int;
    let dispatch = plan.dispatches[place];
    if start == ordinal {
        lemma_participants_measured(
            dispatch,
            component_id,
            start as usize,
            shards,
            identities,
            0,
            participant,
        );
    } else {
        lemma_participants_keep(dispatch, component_id, start as usize, shards, identities, 0);
        let applied = participants_applied_from(
            dispatch,
            component_id,
            start as usize,
            shards,
            identities,
            0,
        );
        let next = with_dispatch(plan, place, applied.0);
        let other = dispatch_indices[ordinal] as int;
        assert(next.dispatches[other].shards.len() == plan.dispatches[other].shards.len());
        lemma_dispatches_measured(
            next,
            component_id,
            dispatch_indices,
            shards,
            identities,
            start + 1,
            ordinal,
            participant,
        );
        if other == place {
            assert(crate::exact_laws::is_same_shard(
                dispatch.shards[participant],
                applied.0.shards[participant],
            ));
        }
    }
}

/// A case is replayed only where every shard of the component was measured, on the same
/// device, with the same rows and as many parameter bytes, and nothing was measured of other
/// dispatches.
pub proof fn law_replayed_cases_have_the_same_shards<
    I: Fn(&VulkanDistributedExecutionPlan, &Vec<usize>, &String, usize) -> VulkanExecutableIdentity,
>(
    identity: I,
    plan: VulkanDistributedExecutionPlanModel,
    component_id: Seq<char>,
    dispatch_indices: Seq<usize>,
    case: VulkanPlacementExecutionCaseIdentityModel,
    identities: DeviceIdentitiesModel,
    after: VulkanDistributedExecutionPlanModel,
    ordinal: int,
    participant: int,
) -> (place: int)
    requires
        is_replayed(identity, plan, component_id, dispatch_indices, case, identities, after),
        0 <= ordinal < dispatch_indices.len() <= usize::MAX,
        0 <= participant < after.dispatches[dispatch_indices[ordinal] as int].shards.len(),
        after.dispatches[dispatch_indices[ordinal] as int].shards.len() <= usize::MAX,
    ensures
        0 <= place < case.shards.len(),
        case.shards[place].dispatch_ordinal == ordinal,
        case.shards[place].participant_ordinal == participant,
        is_measured_shard(
            after.dispatches[dispatch_indices[ordinal] as int],
            after.dispatches[dispatch_indices[ordinal] as int].shards[participant],
            identities,
            case.shards[place],
        ),
        forall|i: int|
            0 <= i < case.shards.len() ==> (#[trigger] case.shards[i]).dispatch_ordinal
                < dispatch_indices.len(),
{
    lemma_replayed(identity, plan, component_id, dispatch_indices, case, identities, after);
    let islanded = with_islands(plan, case)->Ok_0;
    let rebound = checked_case(
        identity,
        islanded,
        component_id,
        dispatch_indices,
        case,
        identities,
    )->Ok_0;
    lemma_shards_relabel(islanded.dispatches, dispatch_indices, component_id, 0, case.shards);
    let before = islanded.dispatches[dispatch_indices[ordinal] as int];
    let dispatch = after.dispatches[dispatch_indices[ordinal] as int];
    assert(is_same_dispatch(before, dispatch));
    assert(crate::exact_laws::is_same_shard(
        before.shards[participant],
        dispatch.shards[participant],
    ));
    lemma_dispatches_measured(
        islanded,
        component_id,
        dispatch_indices,
        rebound.shards,
        identities,
        0,
        ordinal,
        participant,
    );
    let condition = is_place(ordinal as usize, participant as usize);
    assert(index_from(rebound.shards, 0, condition) is Some);
    lemma_found_at(rebound.shards, 0, condition);
    let place = index_from(rebound.shards, 0, condition)->0 as int;
    assert(condition(rebound.shards[place]));
    assert forall|i: int| 0 <= i < case.shards.len() implies (
    #[trigger] case.shards[i]).dispatch_ordinal < dispatch_indices.len() by {
        assert(!has_stray_shard(rebound.shards, dispatch_indices.len()));
        assert(rebound.shards[i].dispatch_ordinal < dispatch_indices.len());
    }
    place
}

/// A case is replayed only for an executable that is the measured one: its artifacts, its
/// graph of distributed dispatches, the equivalence of its results and the strategy of its
/// execution.
pub proof fn law_replayed_cases_have_the_same_executable<
    I: Fn(&VulkanDistributedExecutionPlan, &Vec<usize>, &String, usize) -> VulkanExecutableIdentity,
>(
    identity: I,
    plan: VulkanDistributedExecutionPlanModel,
    component_id: Seq<char>,
    dispatch_indices: Seq<usize>,
    case: VulkanPlacementExecutionCaseIdentityModel,
    identities: DeviceIdentitiesModel,
    after: VulkanDistributedExecutionPlanModel,
)
    requires
        is_replayed(identity, plan, component_id, dispatch_indices, case, identities, after),
        plan.execution_islands.len() > 0,
    ensures
        ({
            let found = case_identity(identity, plan, dispatch_indices, case);
            &&& found.artifact_digest == Ok::<Seq<char>, Seq<char>>(case.artifact_digest)
            &&& found.execution_graph_digest == Ok::<Seq<char>, Seq<char>>(
                case.execution_graph_digest,
            )
            &&& found.equivalence is Ok && found.equivalence->Ok_0 == case.equivalence
            &&& found.strategy is Ok && found.strategy->Ok_0 == case.strategy
            &&& found.operations is Ok && found.operations->Ok_0.len() == case.operations.len()
        }),
{
    lemma_replayed(identity, plan, component_id, dispatch_indices, case, identities, after);
}

} // verus!
