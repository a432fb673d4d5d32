//! Laws of building plans from prepared dispatches.
use vstd::prelude::*;

use crate::contract_selection::selected_contract;
use crate::contracts::{ExecutionPhase, ExecutionShape};
use crate::creation_laws::lemma_kept_one;
use crate::dispatch_laws::lemma_kept_place;
use crate::execution_plans::{
    VulkanDistributedActivationSlotModel, VulkanDistributedActivationStorageModel,
    VulkanDistributedDispatchPlanModel, VulkanDistributedExecutionPlanModel,
};
use crate::contract_planning::planned_dispatch;
use crate::island_plans::resolved_islands;
use crate::ordered::{
    lemma_listed_at, lemma_members_listed, lemma_ordered_listing_exists, lists_key,
    ordered_listing,
};
use crate::plan_building::{
    built_plan, built_plan_set, dispatch_step, logical_dispatches, nothing_planned, owner_step,
    pool_step, same_logical_dispatches, unplanned_fault_from, OwnedPlanModel,
    PlanningContextModel, PlanningModel,
};
use crate::planning::{
    boundary_activation, descriptor_at, device_pool_fault, device_pool_fault_from, edge_arrives,
    edge_leaves, resolved_activation, shaped_bytes,
};
use crate::prepared::{
    ComponentEdgePlacementModel, VulkanDescriptorResourceAddressModel, VulkanPreparedDispatchModel,
};
use crate::sequences::{fold_from, kept};

verus! {

/// The plan of a dispatch is made from the prepared dispatch at a place of an owner: its
/// component is distributed over a pool with the owner, and a contract is selected for it.
pub open spec fn is_planned_from(
    plans: Seq<OwnedPlanModel>,
    context: PlanningContextModel,
    owner: int,
    place: int,
    planned: VulkanDistributedDispatchPlanModel,
) -> bool {
    let owner_device_id = plans[owner].0;
    let dispatch = plans[owner].1.dispatches[place];
    let selected = selected_contract(dispatch, context.manifest, context.phase, context.shape);
    &&& 0 <= owner < plans.len()
    &&& 0 <= place < plans[owner].1.dispatches.len()
    &&& context.pools.contains_key(dispatch.component_id)
    &&& context.pools[dispatch.component_id].contains(owner_device_id)
    &&& selected is Ok && selected->Ok_0 is Some
    &&& planned_dispatch(
        owner_device_id,
        dispatch,
        context.tensors,
        context.pools[dispatch.component_id],
        context.edges,
        (selected->Ok_0->0).1,
        (selected->Ok_0->0).0,
        context.offset_alignment,
        context.resources,
    ) == Ok::<Option<VulkanDistributedDispatchPlanModel>, Seq<char>>(Some(planned))
}

/// The plan of a dispatch is made from some prepared dispatch of the first owners.
pub open spec fn is_planned_from_some(
    plans: Seq<OwnedPlanModel>,
    context: PlanningContextModel,
    planned: VulkanDistributedDispatchPlanModel,
) -> bool {
    exists|owner: int, place: int| #[trigger]
        is_planned_from(plans, context, owner, place, planned)
}

/// The parameter bytes of the first dispatches.
pub open spec fn parameter_bytes(
    dispatches: Seq<VulkanDistributedDispatchPlanModel>,
    count: int,
) -> nat
    decreases count,
{
    if count <= 0 {
        0
    } else {
        parameter_bytes(dispatches, count - 1) + dispatches[count
            - 1].distributed_parameter_byte_count as nat
    }
}

/// A capacity is the largest of a list: none is larger, and it is one of them or zero.
pub open spec fn is_largest(capacity: usize, capacities: Seq<usize>) -> bool {
    &&& forall|i: int| 0 <= i < capacities.len() ==> #[trigger] capacities[i] <= capacity
    &&& capacity == 0 || capacities.contains(capacity)
}

/// The input capacities of dispatches.
pub open spec fn inputs_of(dispatches: Seq<VulkanDistributedDispatchPlanModel>) -> Seq<usize> {
    Seq::new(dispatches.len(), |i: int| dispatches[i].input_byte_capacity)
}

/// The output capacities of dispatches.
pub open spec fn outputs_of(dispatches: Seq<VulkanDistributedDispatchPlanModel>) -> Seq<usize> {
    Seq::new(dispatches.len(), |i: int| dispatches[i].output_byte_capacity)
}

/// What is found so far is made from prepared dispatches.
pub open spec fn is_found(
    plans: Seq<OwnedPlanModel>,
    context: PlanningContextModel,
    found: PlanningModel,
) -> bool {
    &&& forall|d: int|
        0 <= d < found.dispatches.len() ==> is_planned_from_some(
            plans,
            context,
            #[trigger] found.dispatches[d],
        )
    &&& found.parameter_byte_count == parameter_bytes(
        found.dispatches,
        found.dispatches.len() as int,
    )
    &&& is_largest(found.input_byte_capacity, inputs_of(found.dispatches))
    &&& is_largest(found.output_byte_capacity, outputs_of(found.dispatches))
    &&& forall|component_id: Seq<char>| #[trigger]
        found.planned_components.contains(component_id) ==> has_dispatch(plans, context, found.dispatches, component_id)
}

/// Some dispatch is planned from a prepared one of a component.
pub open spec fn has_dispatch(
    plans: Seq<OwnedPlanModel>,
    context: PlanningContextModel,
    dispatches: Seq<VulkanDistributedDispatchPlanModel>,
    component_id: Seq<char>,
) -> bool {
    exists|d: int, owner: int, place: int|
        0 <= d < dispatches.len() && #[trigger] is_planned_from(
            plans,
            context,
            owner,
            place,
            dispatches[d],
        ) && plans[owner].1.dispatches[place].component_id == component_id
}

proof fn lemma_bytes_same(
    left: Seq<VulkanDistributedDispatchPlanModel>,
    right: Seq<VulkanDistributedDispatchPlanModel>,
    count: int,
)
    requires
        count <= left.len(),
        count <= right.len(),
        forall|i: int| 0 <= i < count ==> left[i] == right[i],
    ensures
        parameter_bytes(left, count) == parameter_bytes(right, count),
    decreases count,
{
    if count > 0 {
        lemma_bytes_same(left, right, count - 1);
    }
}

proof fn lemma_largest_grown(capacity: usize, capacities: Seq<usize>, next: usize)
    requires
        is_largest(capacity, capacities),
    ensures
        is_largest(
            if capacity >= next {
                capacity
            } else {
                next
            },
            capacities.push(next),
        ),
{
    let grown = capacities.push(next);
    assert(grown[capacities.len() as int] == next);
    if capacity != 0 {
        let k = choose|k: int| 0 <= k < capacities.len() && capacities[k] == capacity;
        assert(grown[k] == capacity);
    }
}

proof fn lemma_dispatch_planned(
    plans: Seq<OwnedPlanModel>,
    context: PlanningContextModel,
    owner: int,
    place: int,
    found: PlanningModel,
)
    requires
        0 <= owner < plans.len(),
        0 <= place < plans[owner].1.dispatches.len(),
        is_found(plans, context, found),
        dispatch_step(context, plans[owner].0)(found, plans[owner].1.dispatches[place]) is Ok,
    ensures
        is_found(
            plans,
            context,
            dispatch_step(context, plans[owner].0)(
                found,
                plans[owner].1.dispatches[place],
            )->Ok_0,
        ),
{
    let dispatch = plans[owner].1.dispatches[place];
    let next = dispatch_step(context, plans[owner].0)(found, dispatch)->Ok_0;
    if next != found {
        let plan = next.dispatches.last();
        let count = found.dispatches.len();
        assert(next.dispatches == found.dispatches.push(plan));
        assert(is_planned_from(plans, context, owner, place, plan));
        lemma_bytes_same(found.dispatches, next.dispatches, count as int);
        lemma_largest_grown(
            found.input_byte_capacity,
            inputs_of(found.dispatches),
            plan.input_byte_capacity,
        );
        lemma_largest_grown(
            found.output_byte_capacity,
            outputs_of(found.dispatches),
            plan.output_byte_capacity,
        );
        assert(inputs_of(next.dispatches) =~= inputs_of(found.dispatches).push(
            plan.input_byte_capacity,
        ));
        assert(outputs_of(next.dispatches) =~= outputs_of(found.dispatches).push(
            plan.output_byte_capacity,
        ));
        assert forall|d: int| 0 <= d < next.dispatches.len() implies is_planned_from_some(
            plans,
            context,
            #[trigger] next.dispatches[d],
        ) by {
            if d < count {
                assert(next.dispatches[d] == found.dispatches[d]);
            }
        }
        assert forall|component_id: Seq<char>| #[trigger]
            next.planned_components.contains(component_id) implies has_dispatch(
            plans,
            context,
            next.dispatches,
            component_id,
        ) by {
            if found.planned_components.contains(component_id) {
                let (d, o, p) = choose|d: int, o: int, p: int|
                    0 <= d < found.dispatches.len() && #[trigger] is_planned_from(
                        plans,
                        context,
                        o,
                        p,
                        found.dispatches[d],
                    ) && plans[o].1.dispatches[p].component_id == component_id;
                assert(is_planned_from(plans, context, o, p, next.dispatches[d]));
            } else {
                assert(is_planned_from(plans, context, owner, place, next.dispatches[count as int]));
            }
        }
    }
}

proof fn lemma_owner_planned(
    plans: Seq<OwnedPlanModel>,
    context: PlanningContextModel,
    owner: int,
    index: nat,
    found: PlanningModel,
)
    requires
        0 <= owner < plans.len(),
        index <= plans[owner].1.dispatches.len(),
        is_found(plans, context, found),
        fold_from(
            plans[owner].1.dispatches,
            index,
            found,
            dispatch_step(context, plans[owner].0),
        ) is Ok,
    ensures
        is_found(
            plans,
            context,
            fold_from(
                plans[owner].1.dispatches,
                index,
                found,
                dispatch_step(context, plans[owner].0),
            )->Ok_0,
        ),
    decreases plans[owner].1.dispatches.len() - index,
{
    if index < plans[owner].1.dispatches.len() {
        lemma_dispatch_planned(plans, context, owner, index as int, found);
        let next = dispatch_step(context, plans[owner].0)(
            found,
            plans[owner].1.dispatches[index as int],
        )->Ok_0;
        lemma_owner_planned(plans, context, owner, index + 1, next);
    }
}

proof fn lemma_all_planned(
    plans: Seq<OwnedPlanModel>,
    context: PlanningContextModel,
    index: nat,
    found: PlanningModel,
)
    requires
        index <= plans.len(),
        is_found(plans, context, found),
        fold_from(plans, index, found, owner_step(context)) is Ok,
    ensures
        is_found(plans, context, fold_from(plans, index, found, owner_step(context))->Ok_0),
    decreases plans.len() - index,
{
    if index < plans.len() {
        lemma_owner_planned(plans, context, index as int, 0, found);
        let next = owner_step(context)(found, plans[index as int])->Ok_0;
        lemma_all_planned(plans, context, index + 1, next);
    }
}

proof fn lemma_pools(
    pools: Seq<(Seq<char>, Seq<Seq<char>>)>,
    index: nat,
    found: Set<Seq<char>>,
    device_id: Seq<char>,
)
    requires
        index <= pools.len(),
        found.finite(),
        fold_from(pools, index, found, pool_step()) is Ok,
    ensures
        ({
            let all = fold_from(pools, index, found, pool_step())->Ok_0;
            &&& all.finite()
            &&& all.contains(device_id) <==> found.contains(device_id) || exists|p: int|
                index <= p < pools.len() && (#[trigger] pools[p]).1.contains(device_id)
            &&& forall|p: int|
                index <= p < pools.len() ==> (#[trigger] pools[p]).1.len() >= 2
                    && device_pool_fault(pools[p].1) is None
        }),
    decreases pools.len() - index,
{
    if index < pools.len() {
        let pool = pools[index as int];
        let next = found.union(pool.1.to_set());
        pool.1.lemma_cardinality_of_set();
        lemma_pools(pools, index + 1, next, device_id);
    }
}

proof fn lemma_pool_distinct(device_ids: Seq<Seq<char>>, index: nat)
    requires
        device_pool_fault_from(device_ids, index) is None,
    ensures
        forall|i: int, j: int|
            #![trigger device_ids[i], device_ids[j]]
            0 <= i < j < device_ids.len() && index <= j ==> device_ids[i] != device_ids[j],
        forall|i: int| index <= i < device_ids.len() ==> (#[trigger] device_ids[i]).len() > 0,
    decreases device_ids.len() - index,
{
    if index < device_ids.len() {
        lemma_pool_distinct(device_ids, index + 1);
        assert forall|i: int, j: int|
            #![trigger device_ids[i], device_ids[j]]
            0 <= i < j < device_ids.len() && index <= j implies device_ids[i] != device_ids[j] by {
            if j == index {
                assert(device_ids.take(index as int)[i] == device_ids[i]);
            }
        }
    }
}

proof fn lemma_none_unplanned(
    plans: Seq<OwnedPlanModel>,
    pools: Seq<(Seq<char>, Seq<Seq<char>>)>,
    planned: Set<Seq<char>>,
    index: nat,
)
    requires
        unplanned_fault_from(plans, pools, planned, index) is None,
    ensures
        forall|p: int|
            index <= p < pools.len() ==> planned.contains((#[trigger] pools[p]).0),
    decreases pools.len() - index,
{
    if index < pools.len() {
        lemma_none_unplanned(plans, pools, planned, index + 1);
    }
}

/// A plan is built from prepared dispatches alone: each of its dispatches is planned from
/// one, on the pool of its component, and every component with a pool has one. Its buffers
/// are as large as the largest input and output, and its parameter bytes are those of all its
/// dispatches.
pub proof fn law_built_plans_come_from_prepared_dispatches(
    plans: Seq<OwnedPlanModel>,
    context: PlanningContextModel,
)
    requires
        built_plan(plans, context) is Ok,
        context.pools.dom().finite(),
    ensures
        ({
            let plan = built_plan(plans, context)->Ok_0;
            &&& forall|d: int|
                0 <= d < plan.dispatches.len() ==> is_planned_from_some(
                    plans,
                    context,
                    #[trigger] plan.dispatches[d],
                )
            &&& forall|component_id: Seq<char>| #[trigger]
                context.pools.contains_key(component_id) ==> has_dispatch(
                    plans,
                    context,
                    plan.dispatches,
                    component_id,
                )
            &&& is_largest(plan.shared_input_byte_capacity, inputs_of(plan.dispatches))
            &&& is_largest(plan.shared_output_byte_capacity, outputs_of(plan.dispatches))
            &&& plan.distributed_parameter_byte_count == parameter_bytes(
                plan.dispatches,
                plan.dispatches.len() as int,
            )
            &&& plan.storage_buffer_offset_alignment == context.offset_alignment
            &&& plan.shared_activation_route is SharedHost
            &&& resolved_islands(plan.dispatches, plan.shared_activation_route, context.phase)
                is Ok
            &&& resolved_islands(plan.dispatches, plan.shared_activation_route, context.phase)->Ok_0
                == plan.execution_islands
        }),
{
    lemma_all_planned(plans, context, 0, nothing_planned());
    let found = fold_from(plans, 0, nothing_planned(), owner_step(context))->Ok_0;
    let pools = ordered_listing::<String, Seq<Seq<char>>>(context.pools);
    lemma_ordered_listing_exists::<String, Seq<Seq<char>>>(context.pools);
    lemma_none_unplanned(plans, pools, found.planned_components, 0);
    let plan = built_plan(plans, context)->Ok_0;
    assert forall|component_id: Seq<char>| #[trigger]
        context.pools.contains_key(component_id) implies has_dispatch(
        plans,
        context,
        plan.dispatches,
        component_id,
    ) by {
        assert(lists_key(pools, component_id));
        let k = choose|k: int| 0 <= k < pools.len() && #[trigger] pools[k].0 == component_id;
        assert(found.planned_components.contains(pools[k].0));
    }
}

/// The devices of a built plan are those of the pools and no other; every pool has at least
/// two devices, each named and no two alike. The alignment of offsets is a power of two and
/// holds whole elements of two bytes.
pub proof fn law_built_plans_run_on_their_pools(
    plans: Seq<OwnedPlanModel>,
    context: PlanningContextModel,
)
    requires
        built_plan(plans, context) is Ok,
        context.pools.dom().finite(),
    ensures
        ({
            let plan = built_plan(plans, context)->Ok_0;
            &&& forall|device_id: Seq<char>| #[trigger]
                plan.device_ids.contains(device_id) <==> is_pooled(context, device_id)
            &&& forall|component_id: Seq<char>| #[trigger]
                context.pools.contains_key(component_id) ==> is_pool(context.pools[component_id])
            &&& context.offset_alignment > 0
            &&& context.offset_alignment % 2 == 0
        }),
{
    let plan = built_plan(plans, context)->Ok_0;
    let pools = ordered_listing::<String, Seq<Seq<char>>>(context.pools);
    lemma_ordered_listing_exists::<String, Seq<Seq<char>>>(context.pools);
    let devices = fold_from(pools, 0, Set::empty(), pool_step())->Ok_0;
    lemma_pools(pools, 0, Set::empty(), Seq::empty());
    lemma_members_listed::<String>(devices);
    assert forall|device_id: Seq<char>| #[trigger]
        plan.device_ids.contains(device_id) <==> is_pooled(context, device_id) by {
        lemma_pools(pools, 0, Set::empty(), device_id);
        assert(plan.device_ids.contains(device_id) <==> plan.device_ids.to_set().contains(
            device_id,
        ));
        if devices.contains(device_id) {
            let p = choose|p: int|
                0 <= p < pools.len() && (#[trigger] pools[p]).1.contains(device_id);
            lemma_listed_at::<String, Seq<Seq<char>>>(pools, p);
            assert(context.pools.contains_key(pools[p].0));
        }
        if is_pooled(context, device_id) {
            let component_id = choose|component_id: Seq<char>| #[trigger]
                context.pools.contains_key(component_id) && context.pools[component_id].contains(
                    device_id,
                );
            assert(lists_key(pools, component_id));
            let k = choose|k: int| 0 <= k < pools.len() && #[trigger] pools[k].0 == component_id;
            lemma_listed_at::<String, Seq<Seq<char>>>(pools, k);
            assert(pools[k].1.contains(device_id));
        }
    }
    assert forall|component_id: Seq<char>| #[trigger]
        context.pools.contains_key(component_id) implies is_pool(context.pools[component_id]) by {
        assert(lists_key(pools, component_id));
        let k = choose|k: int| 0 <= k < pools.len() && #[trigger] pools[k].0 == component_id;
        lemma_listed_at::<String, Seq<Seq<char>>>(pools, k);
        assert(pools[k].1.len() >= 2);
        lemma_pool_distinct(pools[k].1, 0);
    }
}

/// Some component is distributed over a device.
pub open spec fn is_pooled(context: PlanningContextModel, device_id: Seq<char>) -> bool {
    exists|component_id: Seq<char>| #[trigger]
        context.pools.contains_key(component_id) && context.pools[component_id].contains(device_id)
}

/// The devices can share a component: they are two at least, each named and no two alike.
pub open spec fn is_pool(device_ids: Seq<Seq<char>>) -> bool {
    &&& device_ids.len() >= 2
    &&& device_ids.no_duplicates()
    &&& forall|i: int| 0 <= i < device_ids.len() ==> (#[trigger] device_ids[i]).len() > 0
}

/// Two dispatches replace the same one: of one owner and component, with one number and node.
pub open spec fn replace_the_same(
    left: VulkanDistributedDispatchPlanModel,
    right: VulkanDistributedDispatchPlanModel,
) -> bool {
    &&& left.owner_device_id == right.owner_device_id
    &&& left.dispatch_index == right.dispatch_index
    &&& left.component_id == right.component_id
    &&& left.node_id == right.node_id
}

/// Some dispatch of a list replaces what another one replaces.
pub open spec fn is_replaced_in(
    dispatches: Seq<VulkanDistributedDispatchPlanModel>,
    other: VulkanDistributedDispatchPlanModel,
) -> bool {
    exists|d: int| 0 <= d < dispatches.len() && replace_the_same(#[trigger] dispatches[d], other)
}

proof fn lemma_replaced(
    dispatches: Seq<VulkanDistributedDispatchPlanModel>,
    other: VulkanDistributedDispatchPlanModel,
)
    ensures
        logical_dispatches(dispatches).contains(
            (other.owner_device_id, (other.dispatch_index, (other.component_id, other.node_id))),
        ) <==> is_replaced_in(dispatches, other),
    decreases dispatches.len(),
{
    if dispatches.len() > 0 {
        let rest = dispatches.drop_last();
        lemma_replaced(rest, other);
        if is_replaced_in(rest, other) {
            let d = choose|d: int|
                0 <= d < rest.len() && replace_the_same(#[trigger] rest[d], other);
            assert(replace_the_same(dispatches[d], other));
        }
        if replace_the_same(dispatches.last(), other) {
            assert(replace_the_same(dispatches[dispatches.len() - 1], other));
        }
        if is_replaced_in(dispatches, other) {
            let d = choose|d: int|
                0 <= d < dispatches.len() && replace_the_same(#[trigger] dispatches[d], other);
            if d < rest.len() {
                assert(replace_the_same(rest[d], other));
            }
        }
    }
}

/// Two plans replace the same dispatches exactly where they have as many, and each dispatch
/// of one replaces what some dispatch of the other replaces.
pub proof fn law_plans_replace_the_same_dispatches(
    left: VulkanDistributedExecutionPlanModel,
    right: VulkanDistributedExecutionPlanModel,
)
    ensures
        same_logical_dispatches(left, right) <==> {
            &&& left.dispatches.len() == right.dispatches.len()
            &&& forall|d: int|
                0 <= d < left.dispatches.len() ==> is_replaced_in(
                    right.dispatches,
                    #[trigger] left.dispatches[d],
                )
            &&& forall|d: int|
                0 <= d < right.dispatches.len() ==> is_replaced_in(
                    left.dispatches,
                    #[trigger] right.dispatches[d],
                )
        },
{
    let ours = logical_dispatches(left.dispatches);
    let theirs = logical_dispatches(right.dispatches);
    if same_logical_dispatches(left, right) {
        assert forall|d: int| 0 <= d < left.dispatches.len() implies is_replaced_in(
            right.dispatches,
            #[trigger] left.dispatches[d],
        ) by {
            lemma_replaced(left.dispatches, left.dispatches[d]);
            lemma_replaced(right.dispatches, left.dispatches[d]);
            assert(replace_the_same(left.dispatches[d], left.dispatches[d]));
        }
        assert forall|d: int| 0 <= d < right.dispatches.len() implies is_replaced_in(
            left.dispatches,
            #[trigger] right.dispatches[d],
        ) by {
            lemma_replaced(left.dispatches, right.dispatches[d]);
            lemma_replaced(right.dispatches, right.dispatches[d]);
            assert(replace_the_same(right.dispatches[d], right.dispatches[d]));
        }
    }
    if (forall|d: int|
        0 <= d < left.dispatches.len() ==> is_replaced_in(
            right.dispatches,
            #[trigger] left.dispatches[d],
        )) && (forall|d: int|
        0 <= d < right.dispatches.len() ==> is_replaced_in(
            left.dispatches,
            #[trigger] right.dispatches[d],
        )) {
        lemma_contained(left.dispatches, right.dispatches, left.dispatches.len() as int);
        lemma_contained(right.dispatches, left.dispatches, right.dispatches.len() as int);
        assert(left.dispatches.take(left.dispatches.len() as int) =~= left.dispatches);
        assert(right.dispatches.take(right.dispatches.len() as int) =~= right.dispatches);
        assert(ours =~= theirs);
    }
}

proof fn lemma_contained(
    left: Seq<VulkanDistributedDispatchPlanModel>,
    right: Seq<VulkanDistributedDispatchPlanModel>,
    count: int,
)
    requires
        0 <= count <= left.len(),
        forall|d: int| 0 <= d < left.len() ==> is_replaced_in(right, #[trigger] left[d]),
    ensures
        logical_dispatches(left.take(count)).subset_of(logical_dispatches(right)),
    decreases count,
{
    if count > 0 {
        lemma_contained(left, right, count - 1);
        assert(left.take(count).drop_last() =~= left.take(count - 1));
        lemma_replaced(right, left[count - 1]);
    }
}

/// The plans of a set are those of single-lane decoding, of multi-lane decoding and of
/// multi-lane prefilling, and replace the same dispatches.
pub proof fn law_plan_sets_hold_every_phase(
    plans: Seq<OwnedPlanModel>,
    context: PlanningContextModel,
)
    requires
        built_plan_set(plans, context) is Ok,
    ensures
        ({
            let set = built_plan_set(plans, context)->Ok_0;
            &&& is_built_for(
                plans,
                context,
                ExecutionPhase::Decode,
                ExecutionShape::SingleLane,
                set.decode,
            )
            &&& is_built_for(
                plans,
                context,
                ExecutionPhase::Decode,
                ExecutionShape::MultiLane,
                set.decode_batch,
            )
            &&& is_built_for(
                plans,
                context,
                ExecutionPhase::Prefill,
                ExecutionShape::MultiLane,
                set.prefill,
            )
            &&& forall|d: int|
                0 <= d < set.decode.dispatches.len() ==> is_replaced_in(
                    set.decode_batch.dispatches,
                    #[trigger] set.decode.dispatches[d],
                ) && is_replaced_in(set.prefill.dispatches, set.decode.dispatches[d])
            &&& set.decode.dispatches.len() == set.decode_batch.dispatches.len()
            &&& set.decode.dispatches.len() == set.prefill.dispatches.len()
        }),
{
    let set = built_plan_set(plans, context)->Ok_0;
    law_plans_replace_the_same_dispatches(set.decode, set.decode_batch);
    law_plans_replace_the_same_dispatches(set.decode, set.prefill);
}

/// The plan is built for a phase and a shape.
pub open spec fn is_built_for(
    plans: Seq<OwnedPlanModel>,
    context: PlanningContextModel,
    phase: ExecutionPhase,
    shape: ExecutionShape,
    plan: VulkanDistributedExecutionPlanModel,
) -> bool {
    built_plan(plans, PlanningContextModel { phase, shape, ..context }) == Ok::<
        VulkanDistributedExecutionPlanModel,
        Seq<char>,
    >(plan)
}

/// The edge carries a signal into a component: by the port of the component, or by the port
/// of the graph.
pub open spec fn carries_in(
    edge: ComponentEdgePlacementModel,
    component_id: Seq<char>,
    signal_id: Seq<char>,
) -> bool {
    edge.destination_component_id == component_id && (edge.destination_port_id == signal_id
        || edge.destination_component_port == Some(signal_id))
}

/// The edge carries a signal out of a component.
pub open spec fn carries_out(
    edge: ComponentEdgePlacementModel,
    component_id: Seq<char>,
    signal_id: Seq<char>,
) -> bool {
    edge.source_component_id == component_id && (edge.source_port_id == signal_id
        || edge.source_component_port == Some(signal_id))
}

/// The activation lies in an edge: it is held by the device at the source of the edge, and is
/// as large as all elements of its shape.
pub open spec fn lies_in_edge(
    activation: VulkanDistributedActivationSlotModel,
    edge: ComponentEdgePlacementModel,
    element_bytes: usize,
) -> bool {
    &&& activation.storage == (VulkanDistributedActivationStorageModel::Edge {
        edge_index: edge.edge_index,
        owner_device_id: edge.source_device_id,
    })
    &&& activation.slot == edge.edge_index
    &&& activation.byte_capacity == shaped_bytes(edge.shape, element_bytes as nat)
    &&& activation.signal_byte_capacity == activation.byte_capacity
    &&& edge.shape.len() > 0
}

proof fn lemma_boundary(
    dispatch: VulkanPreparedDispatchModel,
    binding: usize,
    required: usize,
    role: Seq<char>,
    signal_id: Seq<char>,
    edges: Seq<ComponentEdgePlacementModel>,
    condition: spec_fn(ComponentEdgePlacementModel) -> bool,
    boundary: VulkanDistributedActivationStorageModel,
    element_bytes: usize,
)
    requires
        boundary_activation(
            dispatch,
            binding,
            required,
            role,
            signal_id,
            kept(edges, condition),
            boundary,
            element_bytes,
        ) is Ok,
    ensures
        ({
            let activation = boundary_activation(
                dispatch,
                binding,
                required,
                role,
                signal_id,
                kept(edges, condition),
                boundary,
                element_bytes,
            )->Ok_0;
            &&& activation.binding == binding
            &&& activation.component_id == dispatch.component_id
            &&& activation.signal_id == signal_id
            &&& forall|e: int, f: int|
                #![trigger edges[e], edges[f]]
                0 <= e < edges.len() && 0 <= f < edges.len() && condition(edges[e]) && condition(
                    edges[f],
                ) ==> e == f
            &&& forall|e: int|
                0 <= e < edges.len() && condition(#[trigger] edges[e]) ==> lies_in_edge(
                    activation,
                    edges[e],
                    element_bytes,
                )
            &&& (forall|e: int| 0 <= e < edges.len() ==> !condition(#[trigger] edges[e]))
                ==> activation.storage == boundary && activation.byte_capacity == required
                && activation.signal_byte_capacity == required && activation.slot == binding
        }),
{
    let matching = kept(edges, condition);
    assert forall|e: int, f: int|
        #![trigger edges[e], edges[f]]
        0 <= e < edges.len() && 0 <= f < edges.len() && condition(edges[e]) && condition(
            edges[f],
        ) implies e == f by {
        lemma_kept_one(edges, condition, e);
    }
    let activation = boundary_activation(
        dispatch,
        binding,
        required,
        role,
        signal_id,
        matching,
        boundary,
        element_bytes,
    )->Ok_0;
    assert forall|e: int| 0 <= e < edges.len() && condition(#[trigger] edges[e]) implies
        lies_in_edge(activation, edges[e], element_bytes) by {
        lemma_kept_one(edges, condition, e);
        crate::planning::law_edge_capacity_is_the_product_of_the_shape(
            dispatch,
            edges[e],
            element_bytes,
        );
    }
    if forall|e: int| 0 <= e < edges.len() ==> !condition(#[trigger] edges[e]) {
        if matching.len() > 0 {
            lemma_kept_place(edges, condition, 0);
            let e = choose|e: int| 0 <= e < edges.len() && edges[e] == matching[0];
            assert(!condition(edges[e]));
        }
    }
}

/// The activation at a binding is what the first descriptor there addresses, with room for
/// what the dispatch needs. A slot is the slot that is addressed. A signal of a boundary lies
/// in the one edge that carries it into or out of the component, and in the boundary of the
/// model where none does; several edges are refused.
pub proof fn law_activations_lie_where_their_signal_is(
    dispatch: VulkanPreparedDispatchModel,
    binding: usize,
    required: usize,
    role: Seq<char>,
    edges: Seq<ComponentEdgePlacementModel>,
    element_bytes: usize,
) -> (place: int)
    requires
        resolved_activation(dispatch, binding, required, role, edges, element_bytes) is Ok,
    ensures
        ({
            let activation = resolved_activation(
                dispatch,
                binding,
                required,
                role,
                edges,
                element_bytes,
            )->Ok_0;
            let resource = dispatch.descriptors[place].resource;
            &&& 0 <= place < dispatch.descriptors.len()
            &&& dispatch.descriptors[place].binding == binding
            &&& forall|d: int|
                0 <= d < place ==> (#[trigger] dispatch.descriptors[d]).binding != binding
            &&& activation.binding == binding
            &&& activation.signal_byte_capacity >= required
            &&& resource is ActivationSlot || resource is BoundaryInput || resource
                is BoundaryOutput
            &&& resource is ActivationSlot ==> resource == (
            VulkanDescriptorResourceAddressModel::ActivationSlot {
                component_id: activation.component_id,
                signal_id: activation.signal_id,
                slot: activation.slot,
                byte_capacity: activation.byte_capacity,
                signal_byte_capacity: activation.signal_byte_capacity,
            }) && activation.storage is ActivationSlot
            &&& resource is BoundaryInput ==> {
                let signal_id = resource->BoundaryInput_signal_id;
                &&& activation.signal_id == signal_id
                &&& activation.component_id == dispatch.component_id
                &&& forall|e: int|
                    0 <= e < edges.len() && carries_in(
                        #[trigger] edges[e],
                        dispatch.component_id,
                        signal_id,
                    ) ==> lies_in_edge(activation, edges[e], element_bytes)
                &&& (forall|e: int|
                    0 <= e < edges.len() ==> !carries_in(
                        #[trigger] edges[e],
                        dispatch.component_id,
                        signal_id,
                    )) ==> activation.storage is BoundaryInput && activation.byte_capacity
                    == required
            }
            &&& resource is BoundaryOutput ==> {
                let signal_id = resource->BoundaryOutput_signal_id;
                &&& activation.signal_id == signal_id
                &&& activation.component_id == dispatch.component_id
                &&& forall|e: int|
                    0 <= e < edges.len() && carries_out(
                        #[trigger] edges[e],
                        dispatch.component_id,
                        signal_id,
                    ) ==> lies_in_edge(activation, edges[e], element_bytes)
                &&& (forall|e: int|
                    0 <= e < edges.len() ==> !carries_out(
                        #[trigger] edges[e],
                        dispatch.component_id,
                        signal_id,
                    )) ==> activation.storage is BoundaryOutput && activation.byte_capacity
                    == required
            }
        }),
{
    let place = crate::binding_laws::lemma_found_place(
        dispatch.descriptors,
        0,
        descriptor_at(binding),
    );
    assert forall|d: int| 0 <= d < place implies (
    #[trigger] dispatch.descriptors[d]).binding != binding by {
        assert(!descriptor_at(binding)(dispatch.descriptors[d]));
    }
    let resource = dispatch.descriptors[place].resource;
    if resource is BoundaryInput {
        let signal_id = resource->BoundaryInput_signal_id;
        let condition = edge_arrives(dispatch.component_id, signal_id);
        lemma_boundary(
            dispatch,
            binding,
            required,
            role,
            signal_id,
            edges,
            condition,
            VulkanDistributedActivationStorageModel::BoundaryInput,
            element_bytes,
        );
        assert forall|e: int| 0 <= e < edges.len() implies (condition(#[trigger] edges[e])
            <==> carries_in(edges[e], dispatch.component_id, signal_id)) by {}
    }
    if resource is BoundaryOutput {
        let signal_id = resource->BoundaryOutput_signal_id;
        let condition = edge_leaves(dispatch.component_id, signal_id);
        lemma_boundary(
            dispatch,
            binding,
            required,
            role,
            signal_id,
            edges,
            condition,
            VulkanDistributedActivationStorageModel::BoundaryOutput,
            element_bytes,
        );
        assert forall|e: int| 0 <= e < edges.len() implies (condition(#[trigger] edges[e])
            <==> carries_out(edges[e], dispatch.component_id, signal_id)) by {}
    }
    place
}

} // verus!
