//! Replaying the measured execution of a component.
use vstd::prelude::*;

use crate::errors::VulkanDistributedPlanError;
use crate::exact_coverage::{exact_case_error, fault_agrees};
use crate::exact_rebinding::{case_error, case_text};
use crate::execution_plans::{
    VulkanDistributedDispatchPlanModel, VulkanDistributedExecutionPlan,
    VulkanDistributedExecutionPlanModel, VulkanPhysicalExecutionIslandPlan,
    VulkanPhysicalExecutionIslandPlanModel, VulkanPhysicalExecutionTransportRoute,
    VulkanPhysicalExecutionTransportRouteModel, VulkanSharedResidentBufferRoute,
};
use crate::islands::{append_all, list_shard_device_ids, shard_device_ids};
use crate::ordered::{ordered_members, OrderedMap, OrderedSet};
use crate::placement::{
    VulkanPlacementDeviceExecutionIdentity, VulkanPlacementDeviceExecutionIdentityModel,
    VulkanPlacementExecutionCaseIdentity, VulkanPlacementExecutionCaseIdentityModel,
    VulkanPlacementTransportIdentity, VulkanPlacementTransportIdentityModel,
};
use crate::sequences::{append, fold_from, holds, kept, lemma_kept_step};
use crate::text::{debug_text, join4, quoted};
use crate::values::PlainValue;

verus! {

/// The physical devices by their logical names.
pub type DeviceIdentitiesModel = Map<Seq<char>, VulkanPlacementDeviceExecutionIdentityModel>;

/// The physical devices by their logical names.
pub type DeviceIdentities = OrderedMap<String, VulkanPlacementDeviceExecutionIdentity>;

/// The logical devices of the first dispatches of a component.
pub open spec fn participants_of(
    dispatches: Seq<VulkanDistributedDispatchPlanModel>,
    dispatch_indices: Seq<usize>,
) -> Set<Seq<char>>
    decreases dispatch_indices.len(),
{
    if dispatch_indices.len() == 0 {
        Set::empty()
    } else {
        participants_of(dispatches, dispatch_indices.drop_last()).union(
            shard_device_ids(dispatches[dispatch_indices.last() as int].shards).to_set(),
        )
    }
}

/// The logical names of the first dispatches of a component.
pub open spec fn dispatch_numbers(
    dispatches: Seq<VulkanDistributedDispatchPlanModel>,
    dispatch_indices: Seq<usize>,
) -> Set<usize>
    decreases dispatch_indices.len(),
{
    if dispatch_indices.len() == 0 {
        Set::empty()
    } else {
        dispatch_numbers(dispatches, dispatch_indices.drop_last()).insert(
            dispatches[dispatch_indices.last() as int].dispatch_index,
        )
    }
}

/// The physical devices of logical devices from an index on, or the text of the error.
pub open spec fn bound_devices_from(
    participants: Seq<Seq<char>>,
    identities: DeviceIdentitiesModel,
    component_id: Seq<char>,
    index: nat,
    found: Seq<VulkanPlacementDeviceExecutionIdentityModel>,
) -> Result<Seq<VulkanPlacementDeviceExecutionIdentityModel>, Seq<char>>
    decreases participants.len() - index,
{
    if index >= participants.len() {
        Ok(found)
    } else if !identities.contains_key(participants[index as int]) {
        Err(unbound_text(component_id, participants[index as int]))
    } else {
        bound_devices_from(
            participants,
            identities,
            component_id,
            index + 1,
            found.push(identities[participants[index as int]]),
        )
    }
}

/// The text of an error about a logical device without a physical one.
pub open spec fn unbound_text(component_id: Seq<char>, device_id: Seq<char>) -> Seq<char> {
    case_text(component_id, " references unbound logical participant "@) + debug_text(device_id)
}

pub(crate) fn unbound_error<T>(component_id: &str, device_id: &String) -> (outcome: Result<
    T,
    VulkanDistributedPlanError,
>)
    ensures
        outcome is Err,
        outcome->Err_0.0@ == unbound_text(component_id@, device_id@),
{
    exact_case_error(
        join4(
            "exact case for component ",
            quoted(component_id).as_str(),
            " references unbound logical participant ",
            quoted(device_id.as_str()).as_str(),
        ),
    )
}

/// The island belongs to the component and runs one of the dispatches.
pub open spec fn is_component_island(component_id: Seq<char>, numbers: Set<usize>) -> spec_fn(
    VulkanPhysicalExecutionIslandPlanModel,
) -> bool {
    |island: VulkanPhysicalExecutionIslandPlanModel|
        island.component_id == component_id && exists|i: int|
            0 <= i < island.dispatches.len() && numbers.contains(
                (#[trigger] island.dispatches[i]).dispatch_index,
            )
}

/// The islands of the dispatches of a component.
pub open spec fn component_islands(
    plan: VulkanDistributedExecutionPlanModel,
    component_id: Seq<char>,
    dispatch_indices: Seq<usize>,
) -> Seq<VulkanPhysicalExecutionIslandPlanModel> {
    kept(
        plan.execution_islands,
        is_component_island(component_id, dispatch_numbers(plan.dispatches, dispatch_indices)),
    )
}

/// The name of a route in the identity of a transport.
pub open spec fn route_identity(route: VulkanSharedResidentBufferRoute) -> Seq<char> {
    match route {
        VulkanSharedResidentBufferRoute::ExternalDeviceLocal => "external_device_local"@,
        VulkanSharedResidentBufferRoute::SharedHost => "shared_host"@,
    }
}

/// Bytes that devices exchange: source, destination, capacity and route.
pub type Transport = (String, (String, (usize, String)));

/// The model of [`Transport`].
pub type TransportModel = (Seq<char>, (Seq<char>, (usize, Seq<char>)));

/// The routes of islands, island by island.
pub open spec fn all_routes(islands: Seq<VulkanPhysicalExecutionIslandPlanModel>) -> Seq<
    VulkanPhysicalExecutionTransportRouteModel,
>
    decreases islands.len(),
{
    if islands.len() == 0 {
        Seq::empty()
    } else {
        all_routes(islands.drop_last()) + islands.last().transport_routes
    }
}

/// Adds what devices exchange over a route.
pub open spec fn transport_step(
    identities: DeviceIdentitiesModel,
    component_id: Seq<char>,
    route_name: Seq<char>,
) -> spec_fn(Set<TransportModel>, VulkanPhysicalExecutionTransportRouteModel) -> Result<
    Set<TransportModel>,
    Seq<char>,
> {
    |found: Set<TransportModel>, route: VulkanPhysicalExecutionTransportRouteModel|
        if !identities.contains_key(route.source_device_id) {
            Err(case_text(component_id, " has an unbound transport source"@))
        } else if !identities.contains_key(route.destination_device_id) {
            Err(case_text(component_id, " has an unbound transport destination"@))
        } else {
            Ok(
                found.insert(
                    (
                        identities[route.source_device_id].physical_device_id,
                        (
                            identities[route.destination_device_id].physical_device_id,
                            (route.byte_capacity, route_name),
                        ),
                    ),
                ),
            )
        }
}

/// What devices exchanged while a component was measured.
pub open spec fn measured_transports(
    transports: Seq<VulkanPlacementTransportIdentityModel>,
) -> Set<TransportModel>
    decreases transports.len(),
{
    if transports.len() == 0 {
        Set::empty()
    } else {
        measured_transports(transports.drop_last()).insert(
            (
                transports.last().source_physical_device_id,
                (
                    transports.last().destination_physical_device_id,
                    (transports.last().byte_capacity, transports.last().route),
                ),
            ),
        )
    }
}

/// What is wrong with the transports of a case.
pub open spec fn transport_fault(
    plan: VulkanDistributedExecutionPlanModel,
    component_id: Seq<char>,
    dispatch_indices: Seq<usize>,
    case: VulkanPlacementExecutionCaseIdentityModel,
    identities: DeviceIdentitiesModel,
) -> Option<Seq<char>> {
    match fold_from(
        all_routes(component_islands(plan, component_id, dispatch_indices)),
        0,
        Set::empty(),
        transport_step(
            identities,
            component_id,
            route_identity(plan.shared_activation_route),
        ),
    ) {
        Err(message) => Some(message),
        Ok(transports) => if transports != measured_transports(case.transports) {
            Some(case_text(component_id, " requires different physical transport routes"@))
        } else {
            None
        },
    }
}

/// What is wrong with the islands, the owner and the endpoints of a case.
pub open spec fn endpoint_fault(
    islands: Seq<VulkanPhysicalExecutionIslandPlanModel>,
    component_id: Seq<char>,
    case: VulkanPlacementExecutionCaseIdentityModel,
    identities: DeviceIdentitiesModel,
) -> Option<Seq<char>> {
    let first = islands[0];
    let last = islands.last();
    if islands.len() == 0 {
        Some(case_text(component_id, " has no concrete physical execution island"@))
    } else if exists|i: int|
        0 <= i < islands.len() && (#[trigger] islands[i]).owner_device_id
            != first.owner_device_id {
        Some(case_text(component_id, " spans runtime islands with different owners"@))
    } else if !identities.contains_key(first.owner_device_id) {
        Some(case_text(component_id, " has an unbound logical owner"@))
    } else if identities[first.owner_device_id].physical_device_id
        != case.owner_physical_device_id {
        Some(case_text(component_id, " was measured with a different physical owner"@))
    } else if !identities.contains_key(first.entry_device_id) {
        Some(case_text(component_id, " has an unbound physical input endpoint"@))
    } else if !identities.contains_key(last.exit_device_id) {
        Some(case_text(component_id, " has an unbound physical output endpoint"@))
    } else if identities[first.entry_device_id].physical_device_id
        != case.input_physical_device_id || identities[last.exit_device_id].physical_device_id
        != case.output_physical_device_id || first.dispatches[0].input_byte_capacity
        != case.behavior.shape.input_byte_capacity || last.dispatches.last().output_byte_capacity
        != case.behavior.shape.output_byte_capacity {
        Some(
            case_text(
                component_id,
                " was measured with different physical endpoints or activation shape"@,
            ),
        )
    } else {
        None
    }
}

/// What is wrong with the devices of a case.
pub open spec fn device_fault(
    plan: VulkanDistributedExecutionPlanModel,
    component_id: Seq<char>,
    dispatch_indices: Seq<usize>,
    case: VulkanPlacementExecutionCaseIdentityModel,
    identities: DeviceIdentitiesModel,
) -> Option<Seq<char>> {
    match bound_devices_from(
        ordered_members::<String>(participants_of(plan.dispatches, dispatch_indices)),
        identities,
        component_id,
        0,
        Seq::empty(),
    ) {
        Err(message) => Some(message),
        Ok(devices) => if devices.to_set() != case.devices.to_set() {
            Some(
                case_text(
                    component_id,
                    " was measured on different physical devices or drivers"@,
                ),
            )
        } else {
            None
        },
    }
}

fn list_participants(
    plan: &VulkanDistributedExecutionPlan,
    dispatch_indices: &Vec<usize>,
) -> (participants: OrderedSet<String>)
    requires
        forall|i: int|
            0 <= i < dispatch_indices.len() ==> #[trigger] dispatch_indices@[i]
                < plan.dispatches.len(),
    ensures
        participants.deep_view() == participants_of(
            plan.deep_view().dispatches,
            dispatch_indices.deep_view(),
        ),
{
    let ghost dispatches = plan.deep_view().dispatches;
    let ghost all = dispatch_indices.deep_view();
    let mut participants: OrderedSet<String> = OrderedSet::new();
    assert(all.take(0) =~= Seq::empty());
    for index in 0..dispatch_indices.len()
        invariant
            forall|i: int|
                0 <= i < dispatch_indices.len() ==> #[trigger] dispatch_indices@[i]
                    < plan.dispatches.len(),
            dispatches == plan.dispatches.deep_view(),
            all == dispatch_indices.deep_view(),
            participants.deep_view() == participants_of(dispatches, all.take(index as int)),
    {
        let dispatch_index: usize = dispatch_indices[index];
        assert(all[index as int] == dispatch_index);
        assert(all.take(index as int + 1).drop_last() =~= all.take(index as int));
        assert(dispatches[dispatch_index as int]
            == plan.dispatches@[dispatch_index as int].deep_view());
        participants.add_all(&list_shard_device_ids(&plan.dispatches[dispatch_index].shards));
    }
    assert(all.take(all.len() as int) =~= all);
    participants
}

fn list_dispatch_numbers(
    plan: &VulkanDistributedExecutionPlan,
    dispatch_indices: &Vec<usize>,
) -> (numbers: OrderedSet<usize>)
    requires
        forall|i: int|
            0 <= i < dispatch_indices.len() ==> #[trigger] dispatch_indices@[i]
                < plan.dispatches.len(),
    ensures
        numbers.deep_view() == dispatch_numbers(
            plan.deep_view().dispatches,
            dispatch_indices.deep_view(),
        ),
{
    let ghost dispatches = plan.deep_view().dispatches;
    let ghost all = dispatch_indices.deep_view();
    let mut numbers: OrderedSet<usize> = OrderedSet::new();
    assert(all.take(0) =~= Seq::empty());
    for index in 0..dispatch_indices.len()
        invariant
            forall|i: int|
                0 <= i < dispatch_indices.len() ==> #[trigger] dispatch_indices@[i]
                    < plan.dispatches.len(),
            dispatches == plan.dispatches.deep_view(),
            all == dispatch_indices.deep_view(),
            numbers.deep_view() == dispatch_numbers(dispatches, all.take(index as int)),
    {
        let dispatch_index: usize = dispatch_indices[index];
        assert(all[index as int] == dispatch_index);
        assert(all.take(index as int + 1).drop_last() =~= all.take(index as int));
        assert(dispatches[dispatch_index as int]
            == plan.dispatches@[dispatch_index as int].deep_view());
        numbers.insert(plan.dispatches[dispatch_index].dispatch_index);
    }
    assert(all.take(all.len() as int) =~= all);
    numbers
}

fn holds_all(
    items: &Vec<VulkanPlacementDeviceExecutionIdentity>,
    values: &Vec<VulkanPlacementDeviceExecutionIdentity>,
) -> (result: bool)
    ensures
        result == values.deep_view().to_set().subset_of(items.deep_view().to_set()),
{
    let ghost all = values.deep_view();
    for index in 0..values.len()
        invariant
            all == values.deep_view(),
            forall|i: int| 0 <= i < index ==> items.deep_view().contains(#[trigger] all[i]),
    {
        assert(all[index as int] == values@[index as int].deep_view());
        if !holds(items, &values[index]) {
            assert(all.to_set().contains(all[index as int]));
            assert(!items.deep_view().to_set().contains(all[index as int]));
            return false;
        }
    }
    assert(all.to_set().subset_of(items.deep_view().to_set())) by {
        assert forall|value: VulkanPlacementDeviceExecutionIdentityModel|
            all.to_set().contains(value) implies items.deep_view().to_set().contains(value) by {
            let k = choose|k: int| 0 <= k < all.len() && all[k] == value;
            assert(items.deep_view().contains(all[k]));
        }
    }
    true
}

pub(crate) fn check_devices(
    plan: &VulkanDistributedExecutionPlan,
    component_id: &str,
    dispatch_indices: &Vec<usize>,
    case: &VulkanPlacementExecutionCaseIdentity,
    identities: &DeviceIdentities,
) -> (outcome: Result<(), VulkanDistributedPlanError>)
    requires
        forall|i: int|
            0 <= i < dispatch_indices.len() ==> #[trigger] dispatch_indices@[i]
                < plan.dispatches.len(),
    ensures
        fault_agrees(
            outcome,
            device_fault(
                plan.deep_view(),
                component_id@,
                dispatch_indices.deep_view(),
                case.deep_view(),
                identities.deep_view(),
            ),
        ),
{
    let participants = list_participants(plan, dispatch_indices);
    let count: usize = participants.len();
    let ghost all = participants.listing();
    let mut devices: Vec<VulkanPlacementDeviceExecutionIdentity> = Vec::new();
    assert(devices.deep_view() =~= Seq::empty());
    let ghost expected = bound_devices_from(
        all,
        identities.deep_view(),
        component_id@,
        0,
        Seq::empty(),
    );
    for index in 0..count
        invariant
            count == all.len(),
            all == participants.listing(),
            all == ordered_members::<String>(
                participants_of(plan.deep_view().dispatches, dispatch_indices.deep_view()),
            ),
            expected == bound_devices_from(
                all,
                identities.deep_view(),
                component_id@,
                0,
                Seq::empty(),
            ),
            expected == bound_devices_from(
                all,
                identities.deep_view(),
                component_id@,
                index as nat,
                devices.deep_view(),
            ),
    {
        let device_id = participants.member_at(index);
        match identities.get(device_id) {
            None => {
                return unbound_error(component_id, device_id);
            },
            Some(identity) => {
                append(&mut devices, identity.duplicate());
            },
        }
    }
    let covered: bool = holds_all(&devices, &case.devices) && holds_all(&case.devices, &devices);
    proof {
        if covered {
            assert(devices.deep_view().to_set() =~= case.deep_view().devices.to_set());
        }
    }
    if !covered {
        return case_error(
            component_id,
            " was measured on different physical devices or drivers",
        );
    }
    Ok(())
}

fn belongs_to_component(
    island: &VulkanPhysicalExecutionIslandPlan,
    component_id: &String,
    numbers: &OrderedSet<usize>,
) -> (result: bool)
    ensures
        result == is_component_island(component_id@, numbers.deep_view())(island.deep_view()),
{
    let ghost all = island.deep_view().dispatches;
    if island.component_id != *component_id {
        return false;
    }
    for index in 0..island.dispatches.len()
        invariant
            all == island.dispatches.deep_view(),
            all == island.deep_view().dispatches,
            island.deep_view().component_id == component_id@,
            forall|i: int|
                0 <= i < index ==> !numbers.deep_view().contains(
                    (#[trigger] all[i]).dispatch_index,
                ),
    {
        assert(all[index as int] == island.dispatches@[index as int].deep_view());
        if numbers.contains(&island.dispatches[index].dispatch_index) {
            assert(numbers.deep_view().contains(all[index as int].dispatch_index));
            return true;
        }
    }
    false
}

pub(crate) fn list_component_islands(
    plan: &VulkanDistributedExecutionPlan,
    component_id: &str,
    dispatch_indices: &Vec<usize>,
) -> (islands: Vec<VulkanPhysicalExecutionIslandPlan>)
    requires
        forall|i: int|
            0 <= i < dispatch_indices.len() ==> #[trigger] dispatch_indices@[i]
                < plan.dispatches.len(),
    ensures
        islands.deep_view() == component_islands(
            plan.deep_view(),
            component_id@,
            dispatch_indices.deep_view(),
        ),
        forall|i: int| 0 <= i < islands.len() ==> (#[trigger] islands@[i]).dispatches.len() > 0,
{
    let numbers = list_dispatch_numbers(plan, dispatch_indices);
    let component = component_id.to_owned();
    let ghost all = plan.deep_view().execution_islands;
    let ghost condition = is_component_island(component@, numbers.deep_view());
    let mut islands: Vec<VulkanPhysicalExecutionIslandPlan> = Vec::new();
    assert(islands.deep_view() =~= kept(all.take(0), condition));
    for index in 0..plan.execution_islands.len()
        invariant
            all == plan.execution_islands.deep_view(),
            condition == is_component_island(component@, numbers.deep_view()),
            islands.deep_view() == kept(all.take(index as int), condition),
            forall|i: int| 0 <= i < islands.len() ==> (#[trigger] islands@[i]).dispatches.len() > 0,
    {
        let island = &plan.execution_islands[index];
        proof {
            lemma_kept_step(all, condition, index as int);
            assert(all[index as int] == island.deep_view());
        }
        if belongs_to_component(island, &component, &numbers) {
            let copied = island.duplicate();
            proof {
                let i = choose|i: int|
                    0 <= i < island.deep_view().dispatches.len() && numbers.deep_view().contains(
                        (#[trigger] island.deep_view().dispatches[i]).dispatch_index,
                    );
                assert(copied.deep_view().dispatches.len() > 0);
                assert(copied.dispatches.len() == copied.deep_view().dispatches.len());
            }
            append(&mut islands, copied);
        }
    }
    assert(all.take(all.len() as int) =~= all);
    islands
}

pub(crate) fn check_endpoints(
    islands: &Vec<VulkanPhysicalExecutionIslandPlan>,
    component_id: &str,
    case: &VulkanPlacementExecutionCaseIdentity,
    identities: &DeviceIdentities,
) -> (outcome: Result<(), VulkanDistributedPlanError>)
    requires
        forall|i: int| 0 <= i < islands.len() ==> (#[trigger] islands@[i]).dispatches.len() > 0,
    ensures
        fault_agrees(
            outcome,
            endpoint_fault(
                islands.deep_view(),
                component_id@,
                case.deep_view(),
                identities.deep_view(),
            ),
        ),
{
    let ghost all = islands.deep_view();
    if islands.len() == 0 {
        return case_error(component_id, " has no concrete physical execution island");
    }
    let first = &islands[0];
    let last = &islands[islands.len() - 1];
    assert(islands@[0].dispatches.len() > 0);
    assert(islands@[islands.len() - 1].dispatches.len() > 0);
    assert(all[0] == first.deep_view());
    assert(all.last() == last.deep_view());
    for index in 0..islands.len()
        invariant
            islands.len() > 0,
            all == islands.deep_view(),
            all[0] == first.deep_view(),
            forall|i: int|
                0 <= i < index ==> (#[trigger] all[i]).owner_device_id == first.owner_device_id@,
    {
        assert(all[index as int] == islands@[index as int].deep_view());
        if islands[index].owner_device_id != first.owner_device_id {
            assert(all[index as int].owner_device_id != all[0].owner_device_id);
            return case_error(component_id, " spans runtime islands with different owners");
        }
    }
    let owner = match identities.get(&first.owner_device_id) {
        None => {
            return case_error(component_id, " has an unbound logical owner");
        },
        Some(identity) => identity,
    };
    if owner.physical_device_id != case.owner_physical_device_id {
        return case_error(component_id, " was measured with a different physical owner");
    }
    let input = match identities.get(&first.entry_device_id) {
        None => {
            return case_error(component_id, " has an unbound physical input endpoint");
        },
        Some(identity) => identity,
    };
    let output = match identities.get(&last.exit_device_id) {
        None => {
            return case_error(component_id, " has an unbound physical output endpoint");
        },
        Some(identity) => identity,
    };
    if input.physical_device_id != case.input_physical_device_id || output.physical_device_id
        != case.output_physical_device_id || first.leader().input_byte_capacity
        != case.behavior.shape.input_byte_capacity || last.tail().output_byte_capacity
        != case.behavior.shape.output_byte_capacity {
        return case_error(
            component_id,
            " was measured with different physical endpoints or activation shape",
        );
    }
    Ok(())
}

fn name_route(route: VulkanSharedResidentBufferRoute) -> (name: &'static str)
    ensures
        name@ == route_identity(route),
{
    match route {
        VulkanSharedResidentBufferRoute::ExternalDeviceLocal => "external_device_local",
        VulkanSharedResidentBufferRoute::SharedHost => "shared_host",
    }
}

fn list_routes(islands: &Vec<VulkanPhysicalExecutionIslandPlan>) -> (routes: Vec<
    VulkanPhysicalExecutionTransportRoute,
>)
    ensures
        routes.deep_view() == all_routes(islands.deep_view()),
{
    let ghost all = islands.deep_view();
    let mut routes: Vec<VulkanPhysicalExecutionTransportRoute> = Vec::new();
    assert(routes.deep_view() =~= all_routes(all.take(0)));
    for index in 0..islands.len()
        invariant
            all == islands.deep_view(),
            routes.deep_view() == all_routes(all.take(index as int)),
    {
        assert(all[index as int] == islands@[index as int].deep_view());
        assert(all.take(index as int + 1).drop_last() =~= all.take(index as int));
        append_all(&mut routes, &islands[index].transport_routes);
    }
    assert(all.take(all.len() as int) =~= all);
    routes
}

fn list_measured_transports(
    transports: &Vec<VulkanPlacementTransportIdentity>,
) -> (found: OrderedSet<
    Transport,
>)
    ensures
        found.deep_view() == measured_transports(transports.deep_view()),
{
    let ghost all = transports.deep_view();
    let mut found: OrderedSet<Transport> = OrderedSet::new();
    assert(all.take(0) =~= Seq::empty());
    for index in 0..transports.len()
        invariant
            all == transports.deep_view(),
            found.deep_view() == measured_transports(all.take(index as int)),
    {
        let transport = &transports[index];
        assert(all[index as int] == transport.deep_view());
        assert(all.take(index as int + 1).drop_last() =~= all.take(index as int));
        found.insert(
            (
                transport.source_physical_device_id.clone(),
                (
                    transport.destination_physical_device_id.clone(),
                    (transport.byte_capacity, transport.route.clone()),
                ),
            ),
        );
    }
    assert(all.take(all.len() as int) =~= all);
    found
}

/// Checks that the devices of a component exchange what they exchanged when it was
/// measured.
pub fn validate_exact_case_transport(
    execution_plan: &VulkanDistributedExecutionPlan,
    component_id: &str,
    dispatch_indices: &Vec<usize>,
    case: &VulkanPlacementExecutionCaseIdentity,
    device_execution_identity_by_logical_device: &DeviceIdentities,
) -> (outcome: Result<(), VulkanDistributedPlanError>)
    requires
        forall|i: int|
            0 <= i < dispatch_indices.len() ==> #[trigger] dispatch_indices@[i]
                < execution_plan.dispatches.len(),
    ensures
        fault_agrees(
            outcome,
            transport_fault(
                execution_plan.deep_view(),
                component_id@,
                dispatch_indices.deep_view(),
                case.deep_view(),
                device_execution_identity_by_logical_device.deep_view(),
            ),
        ),
{
    let identities = device_execution_identity_by_logical_device;
    let route_name = name_route(execution_plan.shared_activation_route);
    let islands = list_component_islands(execution_plan, component_id, dispatch_indices);
    let routes = list_routes(&islands);
    let ghost all = routes.deep_view();
    let ghost step = transport_step(identities.deep_view(), component_id@, route_name@);
    let mut transports: OrderedSet<Transport> = OrderedSet::new();
    for index in 0..routes.len()
        invariant
            all == routes.deep_view(),
            all == all_routes(
                component_islands(
                    execution_plan.deep_view(),
                    component_id@,
                    dispatch_indices.deep_view(),
                ),
            ),
            identities == device_execution_identity_by_logical_device,
            route_name@ == route_identity(execution_plan.shared_activation_route),
            step == transport_step(identities.deep_view(), component_id@, route_name@),
            fold_from(all, 0, Set::empty(), step) == fold_from(
                all,
                index as nat,
                transports.deep_view(),
                step,
            ),
    {
        let route = &routes[index];
        assert(all[index as int] == route.deep_view());
        let source = match identities.get(&route.source_device_id) {
            None => {
                return case_error(component_id, " has an unbound transport source");
            },
            Some(identity) => identity,
        };
        let destination = match identities.get(&route.destination_device_id) {
            None => {
                return case_error(component_id, " has an unbound transport destination");
            },
            Some(identity) => identity,
        };
        transports.insert(
            (
                source.physical_device_id.clone(),
                (
                    destination.physical_device_id.clone(),
                    (route.byte_capacity, route_name.to_owned()),
                ),
            ),
        );
    }
    let measured = list_measured_transports(&case.transports);
    if !transports.same(&measured) {
        return case_error(component_id, " requires different physical transport routes");
    }
    Ok(())
}

} // verus!
