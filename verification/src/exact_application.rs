//! Giving the shards of a component the resources that they owned when it was measured.
use vstd::prelude::*;

use crate::dispatch_shards::{VulkanDistributedDispatchShard, VulkanDistributedDispatchShardModel};
use crate::errors::{plan_agrees, VulkanDistributedPlanError};
use crate::exact_component::{
    check_devices, check_endpoints, component_islands, device_fault, endpoint_fault,
    list_component_islands, transport_fault, unbound_error, unbound_text,
    validate_exact_case_transport, DeviceIdentities, DeviceIdentitiesModel,
};
use crate::exact_coverage::{
    coverage_fault_from, dispatch_case_text, distribution_identity, exact_case_error,
    exact_distribution_name, exact_runtime_selected_resource_fragments, name_dispatch_case,
    runtime_fragments, validate_exact_selected_resource_coverage,
};
use crate::exact_rebinding::{
    case_error, case_identity, case_text, executable_fault, find_identity, find_place, identifies,
    is_place, rebind_exact_execution_case_to_runtime_component, rebound_case,
    validate_exact_case_executable_identity, VulkanExecutableIdentity,
};
use crate::execution_plans::{
    VulkanDistributedDispatchPlan, VulkanDistributedDispatchPlanModel,
    VulkanDistributedExecutionPlan, VulkanDistributedExecutionPlanModel,
    VulkanDistributedSelectedResourcePartitionPlan,
    VulkanDistributedSelectedResourcePartitionPlanModel,
};
use crate::island_plans::{resolved_islands, resolved_physical_execution_islands_for_phase};
use crate::islands::{fragment_bytes, total_fragment_bytes};
use crate::ordered::{lemma_listed_at, listed_map, lists_key, OrderedMap};
use crate::placement::{
    VulkanPlacementExecutionCaseIdentity, VulkanPlacementExecutionCaseIdentityModel,
    VulkanPlacementShardIdentity, VulkanPlacementShardIdentityModel,
};
use crate::sequences::{index_from, kept, lemma_kept_step, sum_of};
use crate::text::{debug_text, join2, join3, quoted};
use crate::values::{OrderedKey, PlainValue};

verus! {

/// The resources that a shard owned, by the selectors of the first partitions.
pub open spec fn owned_by_selector(
    partitions: Seq<VulkanDistributedSelectedResourcePartitionPlanModel>,
    by_partition: Map<usize, Seq<usize>>,
) -> Map<Seq<char>, Seq<usize>>
    decreases partitions.len(),
{
    if partitions.len() == 0 {
        Map::empty()
    } else {
        let earlier = owned_by_selector(partitions.drop_last(), by_partition);
        let ordinal = (partitions.len() - 1) as usize;
        if by_partition.contains_key(ordinal) {
            earlier.insert(partitions.last().selector_id, by_partition[ordinal])
        } else {
            earlier
        }
    }
}

/// The measured shard says something of each partition and of no other.
pub open spec fn names_every_partition(
    shard: VulkanPlacementShardIdentityModel,
    partition_count: nat,
) -> bool {
    forall|ordinal: usize|
        #![trigger shard.selected_resource_indices_by_partition.contains_key(ordinal)]
        #![trigger shard.selected_resource_fragments_by_partition.contains_key(ordinal)]
        (shard.selected_resource_indices_by_partition.contains_key(ordinal)
            || shard.selected_resource_fragments_by_partition.contains_key(ordinal)) <==> ordinal
            < partition_count
}

/// What is wrong with a measured shard for a shard of a dispatch.
pub open spec fn shard_fault(
    dispatch: VulkanDistributedDispatchPlanModel,
    shard: VulkanDistributedDispatchShardModel,
    exact: VulkanPlacementShardIdentityModel,
    identities: DeviceIdentitiesModel,
    component_id: Seq<char>,
    dispatch_ordinal: usize,
) -> Option<Seq<char>> {
    let prefix = dispatch_case_text(component_id, dispatch_ordinal);
    let bytes = sum_of(shard.parameters, fragment_bytes());
    if !identities.contains_key(shard.device_id) {
        Some(unbound_text(component_id, shard.device_id))
    } else if bytes > usize::MAX {
        Some("exact replay parameter byte count overflowed"@)
    } else if exact.physical_device_id != identities[shard.device_id].physical_device_id
        || exact.distribution != distribution_identity(dispatch.distribution)
        || exact.logical_start != shard.row_start || exact.logical_count != shard.row_count
        || exact.parameter_bytes != bytes {
        Some(prefix + " does not match its compiled shard geometry"@)
    } else {
        match runtime_fragments(dispatch.selected_resource_partitions, shard) {
            Err(message) => Some(message),
            Ok(fragments) => if !names_every_partition(
                exact,
                dispatch.selected_resource_partitions.len(),
            ) || exact.selected_resource_fragments_by_partition != fragments {
                Some(prefix + " does not match every selected-resource partition fragment"@)
            } else {
                None
            },
        }
    }
}

/// The measured shard of a participant of a dispatch.
pub open spec fn exact_shard(
    shards: Seq<VulkanPlacementShardIdentityModel>,
    dispatch_ordinal: usize,
    participant_ordinal: usize,
) -> VulkanPlacementShardIdentityModel {
    shards[index_from(shards, 0, is_place(dispatch_ordinal, participant_ordinal))->0 as int]
}

/// The dispatch with what the participants from an index on owned, and what came of it.
pub open spec fn participants_applied_from(
    dispatch: VulkanDistributedDispatchPlanModel,
    component_id: Seq<char>,
    dispatch_ordinal: usize,
    shards: Seq<VulkanPlacementShardIdentityModel>,
    identities: DeviceIdentitiesModel,
    index: nat,
) -> (VulkanDistributedDispatchPlanModel, Result<(), Seq<char>>)
    decreases dispatch.shards.len() - index,
{
    if index >= dispatch.shards.len() {
        (dispatch, Ok(()))
    } else {
        let shard = dispatch.shards[index as int];
        let exact = exact_shard(shards, dispatch_ordinal, index as usize);
        match shard_fault(dispatch, shard, exact, identities, component_id, dispatch_ordinal) {
            Some(message) => (dispatch, Err(message)),
            None => participants_applied_from(
                VulkanDistributedDispatchPlanModel {
                    shards: dispatch.shards.update(
                        index as int,
                        VulkanDistributedDispatchShardModel {
                            selected_resource_indices: owned_by_selector(
                                dispatch.selected_resource_partitions,
                                exact.selected_resource_indices_by_partition,
                            ),
                            ..shard
                        },
                    ),
                    ..dispatch
                },
                component_id,
                dispatch_ordinal,
                shards,
                identities,
                index + 1,
            ),
        }
    }
}

/// The shard belongs to a dispatch.
pub open spec fn is_of_dispatch(dispatch_ordinal: usize) -> spec_fn(
    VulkanPlacementShardIdentityModel,
) -> bool {
    |shard: VulkanPlacementShardIdentityModel| shard.dispatch_ordinal == dispatch_ordinal
}

/// The measured shards of a dispatch are as many as its participants, one for each.
pub open spec fn covers_participants(
    shards: Seq<VulkanPlacementShardIdentityModel>,
    dispatch_ordinal: usize,
    participant_count: nat,
) -> bool {
    &&& kept(shards, is_of_dispatch(dispatch_ordinal)).len() == participant_count
    &&& forall|participant: usize|
        participant < participant_count ==> #[trigger] index_from(
            shards,
            0,
            is_place(dispatch_ordinal, participant),
        ) is Some
}

/// The plan with another dispatch at an index.
pub open spec fn with_dispatch(
    plan: VulkanDistributedExecutionPlanModel,
    index: int,
    dispatch: VulkanDistributedDispatchPlanModel,
) -> VulkanDistributedExecutionPlanModel {
    VulkanDistributedExecutionPlanModel {
        dispatches: plan.dispatches.update(index, dispatch),
        ..plan
    }
}

/// The plan with what the shards of the dispatches from an ordinal on owned, and what
/// came of it.
pub open spec fn dispatches_applied_from(
    plan: VulkanDistributedExecutionPlanModel,
    component_id: Seq<char>,
    dispatch_indices: Seq<usize>,
    shards: Seq<VulkanPlacementShardIdentityModel>,
    identities: DeviceIdentitiesModel,
    ordinal: nat,
) -> (VulkanDistributedExecutionPlanModel, Result<(), Seq<char>>)
    decreases dispatch_indices.len() - ordinal,
{
    let prefix = dispatch_case_text(component_id, ordinal as usize);
    if ordinal >= dispatch_indices.len() {
        (plan, Ok(()))
    } else {
        let place = dispatch_indices[ordinal as int] as int;
        let dispatch = plan.dispatches[place];
        if !covers_participants(shards, ordinal as usize, dispatch.shards.len()) {
            (
                plan,
                Err(prefix + " does not cover every runtime participant ordinal exactly once"@),
            )
        } else {
            let applied = participants_applied_from(
                dispatch,
                component_id,
                ordinal as usize,
                shards,
                identities,
                0,
            );
            let next = with_dispatch(plan, place, applied.0);
            match applied.1 {
                Err(message) => (next, Err(message)),
                Ok(_) => match coverage_fault_from(applied.0, prefix, 0) {
                    Some(message) => (next, Err(message)),
                    None => dispatches_applied_from(
                        next,
                        component_id,
                        dispatch_indices,
                        shards,
                        identities,
                        ordinal + 1,
                    ),
                },
            }
        }
    }
}

/// A measured case as a case of a component, where nothing is wrong with it, or the
/// text of the error.
pub open spec fn checked_case<
    I: Fn(&VulkanDistributedExecutionPlan, &Vec<usize>, &String, usize) -> VulkanExecutableIdentity,
>(
    identity: I,
    plan: VulkanDistributedExecutionPlanModel,
    component_id: Seq<char>,
    dispatch_indices: Seq<usize>,
    case: VulkanPlacementExecutionCaseIdentityModel,
    identities: DeviceIdentitiesModel,
) -> Result<VulkanPlacementExecutionCaseIdentityModel, Seq<char>> {
    match rebound_case(
        case_identity(identity, plan, dispatch_indices, case),
        plan,
        component_id,
        dispatch_indices,
        case,
    ) {
        Err(message) => Err(message),
        Ok(rebound) => {
            let found = case_identity(identity, plan, dispatch_indices, rebound);
            match found.strategy {
                Err(message) => Err(message),
                Ok(strategy) => if strategy != rebound.strategy {
                    Err(
                        case_text(
                            component_id,
                            " was measured with a different physical execution strategy"@,
                        ),
                    )
                } else {
                    match executable_fault(found, rebound, component_id, true) {
                        Some(message) => Err(message),
                        None => match device_fault(
                            plan,
                            component_id,
                            dispatch_indices,
                            rebound,
                            identities,
                        ) {
                            Some(message) => Err(message),
                            None => match endpoint_fault(
                                component_islands(plan, component_id, dispatch_indices),
                                component_id,
                                rebound,
                                identities,
                            ) {
                                Some(message) => Err(message),
                                None => match transport_fault(
                                    plan,
                                    component_id,
                                    dispatch_indices,
                                    rebound,
                                    identities,
                                ) {
                                    Some(message) => Err(message),
                                    None => Ok(rebound),
                                },
                            },
                        },
                    }
                },
            }
        },
    }
}

/// The plan with its islands, where it had none.
pub open spec fn with_islands(
    plan: VulkanDistributedExecutionPlanModel,
    case: VulkanPlacementExecutionCaseIdentityModel,
) -> Result<VulkanDistributedExecutionPlanModel, Seq<char>> {
    if plan.execution_islands.len() > 0 {
        Ok(plan)
    } else {
        match resolved_islands(
            plan.dispatches,
            plan.shared_activation_route,
            case.behavior.phase,
        ) {
            Err(message) => Err(message),
            Ok(execution_islands) => Ok(
                VulkanDistributedExecutionPlanModel { execution_islands, ..plan },
            ),
        }
    }
}

/// The plan with the resources that the shards of a component owned when it was
/// measured, and what came of it.
pub open spec fn replayed_component<
    I: Fn(&VulkanDistributedExecutionPlan, &Vec<usize>, &String, usize) -> VulkanExecutableIdentity,
>(
    identity: I,
    plan: VulkanDistributedExecutionPlanModel,
    component_id: Seq<char>,
    dispatch_indices: Seq<usize>,
    case: VulkanPlacementExecutionCaseIdentityModel,
    identities: DeviceIdentitiesModel,
) -> (VulkanDistributedExecutionPlanModel, Result<(), Seq<char>>) {
    if dispatch_indices.len() == 0 || case.devices.len() < 2 || case.shards.len() == 0 {
        (
            plan,
            Err(
                "distributed exact case for component "@ + debug_text(component_id)
                    + " has no matching runtime dispatches or participants"@,
            ),
        )
    } else {
        match with_islands(plan, case) {
            Err(message) => (plan, Err(message)),
            Ok(islanded) => match checked_case(
                identity,
                islanded,
                component_id,
                dispatch_indices,
                case,
                identities,
            ) {
                Err(message) => (islanded, Err(message)),
                Ok(rebound) => {
                    let applied = dispatches_applied_from(
                        islanded,
                        component_id,
                        dispatch_indices,
                        rebound.shards,
                        identities,
                        0,
                    );
                    if applied.1 is Ok && has_stray_shard(rebound.shards, dispatch_indices.len()) {
                        (
                            applied.0,
                            Err(
                                case_text(
                                    component_id,
                                    " contains shards outside its runtime dispatch sequence"@,
                                ),
                            ),
                        )
                    } else {
                        applied
                    }
                },
            },
        }
    }
}

/// Some measured shard belongs to no dispatch of the component.
pub open spec fn has_stray_shard(
    shards: Seq<VulkanPlacementShardIdentityModel>,
    dispatch_count: nat,
) -> bool {
    exists|i: int|
        0 <= i < shards.len() && (#[trigger] shards[i]).dispatch_ordinal >= dispatch_count
}

/// The new plan and the outcome are the expected ones.
pub open spec fn replay_agrees(
    outcome: Result<(), VulkanDistributedPlanError>,
    plan: VulkanDistributedExecutionPlanModel,
    expected: (VulkanDistributedExecutionPlanModel, Result<(), Seq<char>>),
) -> bool {
    &&& plan == expected.0
    &&& match outcome {
        Ok(_) => expected.1 is Ok,
        Err(error) => expected.1 is Err && expected.1->Err_0 == error.0@,
    }
}

fn list_owned_by_selector(
    partitions: &Vec<VulkanDistributedSelectedResourcePartitionPlan>,
    by_partition: &OrderedMap<usize, Vec<usize>>,
) -> (owned: OrderedMap<String, Vec<usize>>)
    ensures
        owned.deep_view() == owned_by_selector(partitions.deep_view(), by_partition.deep_view()),
{
    let ghost all = partitions.deep_view();
    let mut owned: OrderedMap<String, Vec<usize>> = OrderedMap::new();
    assert(all.take(0) =~= Seq::empty());
    for ordinal in 0..partitions.len()
        invariant
            all == partitions.deep_view(),
            owned.deep_view() == owned_by_selector(
                all.take(ordinal as int),
                by_partition.deep_view(),
            ),
    {
        assert(all[ordinal as int] == partitions@[ordinal as int].deep_view());
        assert(all.take(ordinal as int + 1).drop_last() =~= all.take(ordinal as int));
        match by_partition.get(&ordinal) {
            None => {},
            Some(indices) => {
                owned.insert(partitions[ordinal].selector_id.clone(), indices.duplicate());
            },
        }
    }
    assert(all.take(all.len() as int) =~= all);
    owned
}

fn keys_are_below<V: PlainValue>(map: &OrderedMap<usize, V>, bound: usize) -> (result: bool)
    ensures
        result == (forall|key: usize| #[trigger] map.deep_view().contains_key(key) ==> key < bound),
{
    let count: usize = map.len();
    let ghost listing = map.listing();
    for index in 0..count
        invariant
            count == listing.len(),
            listing == map.listing(),
            crate::ordered::keys_increase::<usize, V::V>(listing),
            listed_map(listing) == map.deep_view(),
            forall|i: int| 0 <= i < index ==> (#[trigger] listing[i]).0 < bound,
    {
        let key: usize = *map.key_at(index);
        if key >= bound {
            proof {
                lemma_listed_at::<usize, V::V>(listing, index as int);
                assert(map.deep_view().contains_key(key));
            }
            return false;
        }
    }
    assert forall|key: usize| #[trigger] map.deep_view().contains_key(key) implies key < bound by {
        assert(lists_key(listing, key));
        let k = choose|k: int| 0 <= k < listing.len() && #[trigger] listing[k].0 == key;
        assert(listing[k].0 < bound);
    }
    true
}

fn every_partition_is_named(
    shard: &VulkanPlacementShardIdentity,
    partition_count: usize,
) -> (result: bool)
    ensures
        result == names_every_partition(shard.deep_view(), partition_count as nat),
{
    let ghost model = shard.deep_view();
    let indices_below: bool = keys_are_below(
        &shard.selected_resource_indices_by_partition,
        partition_count,
    );
    let fragments_below: bool = keys_are_below(
        &shard.selected_resource_fragments_by_partition,
        partition_count,
    );
    if !indices_below || !fragments_below {
        proof {
            if !indices_below {
                let key = choose|key: usize|
                    #[trigger] model.selected_resource_indices_by_partition.contains_key(key)
                        && key >= partition_count;
                assert(model.selected_resource_indices_by_partition.contains_key(key));
            } else {
                let key = choose|key: usize|
                    #[trigger] model.selected_resource_fragments_by_partition.contains_key(key)
                        && key >= partition_count;
                assert(model.selected_resource_fragments_by_partition.contains_key(key));
            }
        }
        return false;
    }
    for ordinal in 0..partition_count
        invariant
            model == shard.deep_view(),
            forall|o: usize|
                #![trigger model.selected_resource_indices_by_partition.contains_key(o)]
                #![trigger model.selected_resource_fragments_by_partition.contains_key(o)]
                o < ordinal ==> model.selected_resource_indices_by_partition.contains_key(o)
                    || model.selected_resource_fragments_by_partition.contains_key(o),
    {
        if shard.selected_resource_indices_by_partition.get(&ordinal).is_none()
            && shard.selected_resource_fragments_by_partition.get(&ordinal).is_none() {
            assert(!model.selected_resource_indices_by_partition.contains_key(ordinal));
            return false;
        }
    }
    true
}

fn check_shard(
    dispatch: &VulkanDistributedDispatchPlan,
    shard: &VulkanDistributedDispatchShard,
    exact: &VulkanPlacementShardIdentity,
    identities: &DeviceIdentities,
    component_id: &str,
    dispatch_ordinal: usize,
) -> (outcome: Result<(), VulkanDistributedPlanError>)
    ensures
        crate::exact_coverage::fault_agrees(
            outcome,
            shard_fault(
                dispatch.deep_view(),
                shard.deep_view(),
                exact.deep_view(),
                identities.deep_view(),
                component_id@,
                dispatch_ordinal,
            ),
        ),
{
    let prefix = name_dispatch_case(component_id, dispatch_ordinal);
    let runtime_identity = match identities.get(&shard.device_id) {
        None => {
            return unbound_error(component_id, &shard.device_id);
        },
        Some(identity) => identity,
    };
    let bytes: usize = match total_fragment_bytes(&shard.parameters) {
        None => {
            return exact_case_error("exact replay parameter byte count overflowed".to_owned());
        },
        Some(bytes) => bytes,
    };
    if exact.physical_device_id != runtime_identity.physical_device_id || exact.distribution
        != exact_distribution_name(dispatch.distribution).to_owned() || exact.logical_start
        != shard.row_start || exact.logical_count != shard.row_count || exact.parameter_bytes
        != bytes {
        return exact_case_error(
            join2(prefix.as_str(), " does not match its compiled shard geometry"),
        );
    }
    let fragments = match exact_runtime_selected_resource_fragments(
        &dispatch.selected_resource_partitions,
        shard,
    ) {
        Err(error) => {
            return Err(error);
        },
        Ok(fragments) => fragments,
    };
    if !every_partition_is_named(exact, dispatch.selected_resource_partitions.len())
        || !exact.selected_resource_fragments_by_partition.same(&fragments) {
        return exact_case_error(
            join2(
                prefix.as_str(),
                " does not match every selected-resource partition fragment",
            ),
        );
    }
    Ok(())
}

fn participants_are_covered(
    shards: &Vec<VulkanPlacementShardIdentity>,
    dispatch_ordinal: usize,
    participant_count: usize,
) -> (result: bool)
    ensures
        result == covers_participants(
            shards.deep_view(),
            dispatch_ordinal,
            participant_count as nat,
        ),
{
    let ghost all = shards.deep_view();
    let ghost condition = is_of_dispatch(dispatch_ordinal);
    let mut count: usize = 0;
    assert(all.take(0) =~= Seq::empty());
    for index in 0..shards.len()
        invariant
            all == shards.deep_view(),
            condition == is_of_dispatch(dispatch_ordinal),
            count <= index,
            count == kept(all.take(index as int), condition).len(),
    {
        proof {
            lemma_kept_step(all, condition, index as int);
            assert(all[index as int] == shards@[index as int].deep_view());
        }
        if shards[index].dispatch_ordinal == dispatch_ordinal {
            count += 1;
        }
    }
    assert(all.take(all.len() as int) =~= all);
    if count != participant_count {
        return false;
    }
    for participant in 0..participant_count
        invariant
            all == shards.deep_view(),
            kept(all, is_of_dispatch(dispatch_ordinal)).len() == participant_count,
            forall|p: usize|
                p < participant ==> #[trigger] index_from(
                    all,
                    0,
                    is_place(dispatch_ordinal, p),
                ) is Some,
    {
        if find_place(shards, dispatch_ordinal, participant).is_none() {
            assert(index_from(all, 0, is_place(dispatch_ordinal, participant)) is None);
            return false;
        }
    }
    true
}

fn apply_participants(
    dispatch: &mut VulkanDistributedDispatchPlan,
    component_id: &str,
    dispatch_ordinal: usize,
    shards: &Vec<VulkanPlacementShardIdentity>,
    identities: &DeviceIdentities,
) -> (outcome: Result<(), VulkanDistributedPlanError>)
    requires
        covers_participants(
            shards.deep_view(),
            dispatch_ordinal,
            old(dispatch).shards@.len(),
        ),
    ensures
        ({
            let expected = participants_applied_from(
                old(dispatch).deep_view(),
                component_id@,
                dispatch_ordinal,
                shards.deep_view(),
                identities.deep_view(),
                0,
            );
            &&& final(dispatch).deep_view() == expected.0
            &&& match outcome {
                Ok(_) => expected.1 is Ok,
                Err(error) => expected.1 is Err && expected.1->Err_0 == error.0@,
            }
        }),
{
    let count: usize = dispatch.shards.len();
    let ghost expected = participants_applied_from(
        dispatch.deep_view(),
        component_id@,
        dispatch_ordinal,
        shards.deep_view(),
        identities.deep_view(),
        0,
    );
    for index in 0..count
        invariant
            count == dispatch.shards.len(),
            covers_participants(shards.deep_view(), dispatch_ordinal, count as nat),
            expected == participants_applied_from(
                old(dispatch).deep_view(),
                component_id@,
                dispatch_ordinal,
                shards.deep_view(),
                identities.deep_view(),
                0,
            ),
            expected == participants_applied_from(
                dispatch.deep_view(),
                component_id@,
                dispatch_ordinal,
                shards.deep_view(),
                identities.deep_view(),
                index as nat,
            ),
    {
        let ghost before = dispatch.deep_view();
        assert(before.shards[index as int] == dispatch.shards@[index as int].deep_view());
        assert(index_from(shards.deep_view(), 0, is_place(dispatch_ordinal, index)) is Some);
        match find_place(shards, dispatch_ordinal, index) {
            None => {},
            Some(place) => {
                let exact = &shards[place];
                assert(exact.deep_view() == exact_shard(
                    shards.deep_view(),
                    dispatch_ordinal,
                    index,
                ));
                match check_shard(
                    dispatch,
                    &dispatch.shards[index],
                    exact,
                    identities,
                    component_id,
                    dispatch_ordinal,
                ) {
                    Err(error) => {
                        return Err(error);
                    },
                    Ok(_) => {},
                }
                let owned = list_owned_by_selector(
                    &dispatch.selected_resource_partitions,
                    &exact.selected_resource_indices_by_partition,
                );
                let ghost given = owned.deep_view();
                dispatch.shards[index].selected_resource_indices = owned;
                assert(dispatch.deep_view().shards =~= before.shards.update(
                    index as int,
                    VulkanDistributedDispatchShardModel {
                        selected_resource_indices: given,
                        ..before.shards[index as int]
                    },
                ));
            },
        }
    }
    Ok(())
}

fn apply_dispatches(
    plan: &mut VulkanDistributedExecutionPlan,
    component_id: &str,
    dispatch_indices: &Vec<usize>,
    shards: &Vec<VulkanPlacementShardIdentity>,
    identities: &DeviceIdentities,
) -> (outcome: Result<(), VulkanDistributedPlanError>)
    requires
        forall|i: int|
            0 <= i < dispatch_indices.len() ==> #[trigger] dispatch_indices@[i]
                < old(plan).dispatches.len(),
    ensures
        replay_agrees(
            outcome,
            final(plan).deep_view(),
            dispatches_applied_from(
                old(plan).deep_view(),
                component_id@,
                dispatch_indices.deep_view(),
                shards.deep_view(),
                identities.deep_view(),
                0,
            ),
        ),
{
    let ghost indices = dispatch_indices.deep_view();
    let ghost expected = dispatches_applied_from(
        plan.deep_view(),
        component_id@,
        indices,
        shards.deep_view(),
        identities.deep_view(),
        0,
    );
    for ordinal in 0..dispatch_indices.len()
        invariant
            indices == dispatch_indices.deep_view(),
            forall|i: int|
                0 <= i < dispatch_indices.len() ==> #[trigger] dispatch_indices@[i]
                    < plan.dispatches.len(),
            expected == dispatches_applied_from(
                old(plan).deep_view(),
                component_id@,
                indices,
                shards.deep_view(),
                identities.deep_view(),
                0,
            ),
            expected == dispatches_applied_from(
                plan.deep_view(),
                component_id@,
                indices,
                shards.deep_view(),
                identities.deep_view(),
                ordinal as nat,
            ),
    {
        let place: usize = dispatch_indices[ordinal];
        assert(indices[ordinal as int] == place);
        let ghost before = plan.deep_view();
        assert(before.dispatches[place as int] == plan.dispatches@[place as int].deep_view());
        if !participants_are_covered(shards, ordinal, plan.dispatches[place].shards.len()) {
            let prefix = name_dispatch_case(component_id, ordinal);
            return exact_case_error(
                join2(
                    prefix.as_str(),
                    " does not cover every runtime participant ordinal exactly once",
                ),
            );
        }
        let mut dispatch = plan.dispatches[place].duplicate();
        assert(dispatch.deep_view().shards.len() == dispatch.shards@.len());
        let applied = apply_participants(
            &mut dispatch,
            component_id,
            ordinal,
            shards,
            identities,
        );
        let ghost given = dispatch.deep_view();
        let covered = match applied {
            Err(error) => Err(error),
            Ok(_) => validate_exact_selected_resource_coverage(&dispatch, component_id, ordinal),
        };
        plan.dispatches[place] = dispatch;
        assert(plan.deep_view().dispatches =~= with_dispatch(
            before,
            place as int,
            given,
        ).dispatches);
        match covered {
            Err(error) => {
                return Err(error);
            },
            Ok(_) => {},
        }
    }
    Ok(())
}

fn find_stray_shard(shards: &Vec<VulkanPlacementShardIdentity>, dispatch_count: usize) -> (result:
    bool)
    ensures
        result == has_stray_shard(shards.deep_view(), dispatch_count as nat),
{
    let ghost all = shards.deep_view();
    for index in 0..shards.len()
        invariant
            all == shards.deep_view(),
            forall|i: int| 0 <= i < index ==> (#[trigger] all[i]).dispatch_ordinal < dispatch_count,
    {
        assert(all[index as int] == shards@[index as int].deep_view());
        if shards[index].dispatch_ordinal >= dispatch_count {
            assert(all[index as int].dispatch_ordinal >= dispatch_count);
            return true;
        }
    }
    false
}

fn check_case<
    I: Fn(&VulkanDistributedExecutionPlan, &Vec<usize>, &String, usize) -> VulkanExecutableIdentity,
>(
    plan: &VulkanDistributedExecutionPlan,
    component_id: &str,
    dispatch_indices: &Vec<usize>,
    case: &VulkanPlacementExecutionCaseIdentity,
    identities: &DeviceIdentities,
    identity: &I,
) -> (outcome: Result<VulkanPlacementExecutionCaseIdentity, VulkanDistributedPlanError>)
    requires
        identifies(*identity),
    ensures
        plan_agrees(
            outcome,
            checked_case(
                *identity,
                plan.deep_view(),
                component_id@,
                dispatch_indices.deep_view(),
                case.deep_view(),
                identities.deep_view(),
            ),
        ),
        outcome is Ok ==> forall|i: int|
            0 <= i < dispatch_indices.len() ==> #[trigger] dispatch_indices@[i]
                < plan.dispatches.len(),
{
    let rebound = match rebind_exact_execution_case_to_runtime_component(
        plan,
        component_id,
        dispatch_indices,
        case,
        identity,
    ) {
        Err(error) => {
            return Err(error);
        },
        Ok(rebound) => rebound,
    };
    let found = find_identity(
        identity,
        plan,
        dispatch_indices,
        &rebound.behavior.compiled_execution_signature,
        rebound.devices.len(),
    );
    match &found.strategy {
        Err(reason) => {
            return exact_case_error(reason.clone());
        },
        Ok(strategy) => {
            if *strategy != rebound.strategy {
                return case_error(
                    component_id,
                    " was measured with a different physical execution strategy",
                );
            }
        },
    }
    match validate_exact_case_executable_identity(
        plan,
        component_id,
        dispatch_indices,
        &rebound,
        identity,
    ) {
        Err(error) => {
            return Err(error);
        },
        Ok(_) => {},
    }
    match check_devices(plan, component_id, dispatch_indices, &rebound, identities) {
        Err(error) => {
            return Err(error);
        },
        Ok(_) => {},
    }
    let islands = list_component_islands(plan, component_id, dispatch_indices);
    match check_endpoints(&islands, component_id, &rebound, identities) {
        Err(error) => {
            return Err(error);
        },
        Ok(_) => {},
    }
    match validate_exact_case_transport(
        plan,
        component_id,
        dispatch_indices,
        &rebound,
        identities,
    ) {
        Err(error) => {
            return Err(error);
        },
        Ok(_) => {},
    }
    Ok(rebound)
}

/// Gives the shards of a component the resources that they owned when it was measured,
/// where the component is the one that was measured.
pub fn replay_exact_distributed_component_case<
    I: Fn(&VulkanDistributedExecutionPlan, &Vec<usize>, &String, usize) -> VulkanExecutableIdentity,
>(
    execution_plan: &mut VulkanDistributedExecutionPlan,
    component_id: &str,
    dispatch_indices: &Vec<usize>,
    case: &VulkanPlacementExecutionCaseIdentity,
    device_execution_identity_by_logical_device: &DeviceIdentities,
    identity: &I,
) -> (outcome: Result<(), VulkanDistributedPlanError>)
    requires
        identifies(*identity),
    ensures
        replay_agrees(
            outcome,
            final(execution_plan).deep_view(),
            replayed_component(
                *identity,
                old(execution_plan).deep_view(),
                component_id@,
                dispatch_indices.deep_view(),
                case.deep_view(),
                device_execution_identity_by_logical_device.deep_view(),
            ),
        ),
{
    let ghost before = execution_plan.deep_view();
    if dispatch_indices.len() == 0 || case.devices.len() < 2 || case.shards.len() == 0 {
        return exact_case_error(
            join3(
                "distributed exact case for component ",
                quoted(component_id).as_str(),
                " has no matching runtime dispatches or participants",
            ),
        );
    }
    if execution_plan.execution_islands.len() == 0 {
        let dispatches = execution_plan.dispatches.as_slice();
        assert(dispatches.deep_view() =~= before.dispatches);
        match resolved_physical_execution_islands_for_phase(
            dispatches,
            execution_plan.shared_activation_route,
            case.behavior.phase,
        ) {
            Err(error) => {
                return Err(error);
            },
            Ok(islands) => {
                execution_plan.execution_islands = islands;
            },
        }
    }
    let ghost islanded = execution_plan.deep_view();
    assert(with_islands(before, case.deep_view()) == Ok::<
        VulkanDistributedExecutionPlanModel,
        Seq<char>,
    >(islanded));
    let rebound = match check_case(
        execution_plan,
        component_id,
        dispatch_indices,
        case,
        device_execution_identity_by_logical_device,
        identity,
    ) {
        Err(error) => {
            return Err(error);
        },
        Ok(rebound) => rebound,
    };
    match apply_dispatches(
        execution_plan,
        component_id,
        dispatch_indices,
        &rebound.shards,
        device_execution_identity_by_logical_device,
    ) {
        Err(error) => {
            return Err(error);
        },
        Ok(_) => {},
    }
    if find_stray_shard(&rebound.shards, dispatch_indices.len()) {
        return case_error(
            component_id,
            " contains shards outside its runtime dispatch sequence",
        );
    }
    Ok(())
}

} // verus!
