//! Laws of what dispatches use of the buffers that are planned for them.
use vstd::prelude::*;

use crate::activation_building::{
    handoff_step, handoffs_from, no_handoffs, no_uses, plan_buffers, private_handoffs,
    shared_inputs, use_step, with_handoff, ActivationUsesModel, PrivateHandoffsModel,
};
use crate::activation_laws::{is_allocated, law_planned_activations_are_allocated};
use crate::activation_plans::{
    VulkanDistributedActivationBufferAllocationModel,
    VulkanDistributedPrivateIntermediateBufferAllocationModel,
    VulkanDistributedPrivateIntermediateDeviceAllocationModel,
    VulkanDistributedReductionBufferAllocationModel,
};
use crate::execution_plans::{
    VulkanDistributedActivationSlotModel, VulkanDistributedDispatchPlanModel,
    VulkanDistributedExecutionPlanModel, VulkanPhysicalExecutionIslandPlanModel,
};
use crate::island_laws::is_held_by;
use crate::islands::{hands_off_locally, shard_device_ids};
use crate::ordered::{lemma_members_listed, ordered_members};
use crate::sequences::{find_from, fold_from, sum_of};

verus! {

/// A dispatch of a list hands its output to the next one on the same devices.
#[verifier::opaque]
pub open spec fn hands_at(dispatches: Seq<VulkanDistributedDispatchPlanModel>, pair: int) -> bool {
    0 <= pair < dispatches.len() - 1 && hands_off_locally(dispatches[pair], dispatches[pair + 1])
}

/// A dispatch of an island hands its output to the next one on the same devices.
pub open spec fn hands_on(
    islands: Seq<VulkanPhysicalExecutionIslandPlanModel>,
    island: int,
    pair: int,
) -> bool {
    0 <= island < islands.len() && hands_at(islands[island].dispatches, pair)
}

/// Some dispatch with a number hands its output on.
pub open spec fn is_handed_from(
    islands: Seq<VulkanPhysicalExecutionIslandPlanModel>,
    number: usize,
) -> bool {
    exists|i: int, p: int| #[trigger]
        hands_on(islands, i, p) && islands[i].dispatches[p].dispatch_index == number
}

/// Some dispatch with a number is handed its input.
pub open spec fn is_handed_to(
    islands: Seq<VulkanPhysicalExecutionIslandPlanModel>,
    number: usize,
) -> bool {
    exists|i: int, p: int| #[trigger]
        hands_on(islands, i, p) && islands[i].dispatches[p + 1].dispatch_index == number
}

/// The allocation holds what one dispatch hands to another: on the device of every shard, in
/// their order, as many bytes as the shard writes.
pub open spec fn holds_handoff(
    producer: VulkanDistributedDispatchPlanModel,
    consumer: VulkanDistributedDispatchPlanModel,
    allocation: VulkanDistributedPrivateIntermediateBufferAllocationModel,
) -> bool {
    &&& allocation.producer_dispatch_index == producer.dispatch_index
    &&& allocation.consumer_dispatch_index == consumer.dispatch_index
    &&& allocation.component_id == producer.component_id
    &&& allocation.signal_id == producer.output_activation.signal_id
    &&& allocation.devices.len() == producer.shards.len()
    &&& forall|s: int|
        0 <= s < producer.shards.len() ==> (#[trigger] allocation.devices[s]).device_id
            == producer.shards[s].device_id && allocation.devices[s].byte_capacity
            == producer.shards[s].output_byte_count
}

/// Some allocation of a list holds what one dispatch hands to another.
pub open spec fn has_handoff(
    allocations: Seq<VulkanDistributedPrivateIntermediateBufferAllocationModel>,
    producer: VulkanDistributedDispatchPlanModel,
    consumer: VulkanDistributedDispatchPlanModel,
) -> bool {
    exists|k: int|
        0 <= k < allocations.len() && holds_handoff(producer, consumer, #[trigger] allocations[k])
}

/// The dispatch with a number hands its output on, within the first ones of a list.
pub open spec fn hands_from(
    dispatches: Seq<VulkanDistributedDispatchPlanModel>,
    count: int,
    number: usize,
) -> bool {
    exists|p: int| #[trigger]
        hands_at(dispatches, p) && p < count - 1 && dispatches[p].dispatch_index == number
}

/// The dispatch with a number is handed its input, within the first ones of a list.
pub open spec fn hands_to(
    dispatches: Seq<VulkanDistributedDispatchPlanModel>,
    count: int,
    number: usize,
) -> bool {
    exists|p: int| #[trigger]
        hands_at(dispatches, p) && p < count - 1 && dispatches[p + 1].dispatch_index == number
}

/// The handoffs that were found of the pairs of a list up to one.
pub open spec fn handoffs_found(
    dispatches: Seq<VulkanDistributedDispatchPlanModel>,
    count: int,
    before: PrivateHandoffsModel,
    found: PrivateHandoffsModel,
) -> bool {
    &&& forall|number: usize| #[trigger]
        found.producers.contains(number) <==> before.producers.contains(number) || hands_from(
            dispatches,
            count,
            number,
        )
    &&& forall|number: usize| #[trigger]
        found.consumers.contains(number) <==> before.consumers.contains(number) || hands_to(
            dispatches,
            count,
            number,
        )
    &&& before.allocations.len() <= found.allocations.len()
    &&& forall|k: int|
        0 <= k < before.allocations.len() ==> #[trigger] found.allocations[k]
            == before.allocations[k]
    &&& forall|p: int| #[trigger]
        hands_at(dispatches, p) && p < count - 1 ==> has_handoff(
            found.allocations,
            dispatches[p],
            dispatches[p + 1],
        )
}

/// What looking at a pair adds to the handoffs that were found.
proof fn lemma_pair_looked_at(
    dispatches: Seq<VulkanDistributedDispatchPlanModel>,
    pair: int,
    found: PrivateHandoffsModel,
)
    requires
        0 <= pair < dispatches.len() - 1,
        with_handoff(found, dispatches[pair], dispatches[pair + 1]) is Ok,
    ensures
        ({
            let next = with_handoff(found, dispatches[pair], dispatches[pair + 1])->Ok_0;
            &&& hands_at(dispatches, pair) ==> next.producers == found.producers.insert(
                dispatches[pair].dispatch_index,
            ) && next.consumers == found.consumers.insert(dispatches[pair + 1].dispatch_index)
                && next.allocations.len() == found.allocations.len() + 1 && holds_handoff(
                dispatches[pair],
                dispatches[pair + 1],
                next.allocations[found.allocations.len() as int],
            )
            &&& !hands_at(dispatches, pair) ==> next == found
            &&& next.allocations.len() >= found.allocations.len()
            &&& forall|k: int|
                0 <= k < found.allocations.len() ==> #[trigger] next.allocations[k]
                    == found.allocations[k]
        }),
{
    reveal(hands_at);
}

proof fn lemma_handoffs(
    dispatches: Seq<VulkanDistributedDispatchPlanModel>,
    index: nat,
    before: PrivateHandoffsModel,
    found: PrivateHandoffsModel,
)
    requires
        1 <= index,
        handoffs_found(dispatches, index as int, before, found),
        handoffs_from(dispatches, index, found) is Ok,
    ensures
        ({
            let count = if index < dispatches.len() {
                dispatches.len()
            } else {
                index
            };
            handoffs_found(
                dispatches,
                count as int,
                before,
                handoffs_from(dispatches, index, found)->Ok_0,
            )
        }),
    decreases dispatches.len() - index,
{
    if index < dispatches.len() {
        let place = index - 1;
        let count = index as int + 1;
        let next = with_handoff(found, dispatches[place], dispatches[place + 1])->Ok_0;
        lemma_pair_looked_at(dispatches, place, found);
        assert forall|number: usize| #[trigger]
            next.producers.contains(number) <==> before.producers.contains(number) || hands_from(
                dispatches,
                count,
                number,
            ) by {
            assert(found.producers.contains(number) <==> before.producers.contains(number)
                || hands_from(dispatches, index as int, number));
            if hands_from(dispatches, index as int, number) {
                let p = choose|p: int| #[trigger]
                    hands_at(dispatches, p) && p < index - 1 && dispatches[p].dispatch_index
                        == number;
                assert(hands_at(dispatches, p));
            }
            if hands_from(dispatches, count, number) {
                let p = choose|p: int| #[trigger]
                    hands_at(dispatches, p) && p < count - 1 && dispatches[p].dispatch_index
                        == number;
                if p < place {
                    assert(hands_from(dispatches, index as int, number));
                }
            }
        }
        assert forall|number: usize| #[trigger]
            next.consumers.contains(number) <==> before.consumers.contains(number) || hands_to(
                dispatches,
                count,
                number,
            ) by {
            assert(found.consumers.contains(number) <==> before.consumers.contains(number)
                || hands_to(dispatches, index as int, number));
            if hands_to(dispatches, index as int, number) {
                let p = choose|p: int| #[trigger]
                    hands_at(dispatches, p) && p < index - 1 && dispatches[p + 1].dispatch_index
                        == number;
                assert(hands_at(dispatches, p));
            }
            if hands_to(dispatches, count, number) {
                let p = choose|p: int| #[trigger]
                    hands_at(dispatches, p) && p < count - 1 && dispatches[p + 1].dispatch_index
                        == number;
                if p < place {
                    assert(hands_to(dispatches, index as int, number));
                }
            }
        }
        assert forall|p: int| #[trigger]
            hands_at(dispatches, p) && p < count - 1 implies has_handoff(
            next.allocations,
            dispatches[p],
            dispatches[p + 1],
        ) by {
            if p < place {
                lemma_handoff_kept(
                    found.allocations,
                    next.allocations,
                    dispatches[p],
                    dispatches[p + 1],
                );
            } else {
                reveal(hands_at);
                assert(p == place);
            }
        }
        lemma_handoffs(dispatches, index + 1, before, next);
    }
}

proof fn lemma_handoff_kept(
    found: Seq<VulkanDistributedPrivateIntermediateBufferAllocationModel>,
    next: Seq<VulkanDistributedPrivateIntermediateBufferAllocationModel>,
    producer: VulkanDistributedDispatchPlanModel,
    consumer: VulkanDistributedDispatchPlanModel,
)
    requires
        has_handoff(found, producer, consumer),
        found.len() <= next.len(),
        forall|k: int| 0 <= k < found.len() ==> #[trigger] next[k] == found[k],
    ensures
        has_handoff(next, producer, consumer),
{
    let k = choose|k: int|
        0 <= k < found.len() && holds_handoff(producer, consumer, #[trigger] found[k]);
    assert(next[k] == found[k]);
}

/// The handoffs that were found of the first islands.
pub open spec fn island_handoffs_found(
    islands: Seq<VulkanPhysicalExecutionIslandPlanModel>,
    count: int,
    found: PrivateHandoffsModel,
) -> bool {
    &&& forall|number: usize| #[trigger]
        found.producers.contains(number) <==> is_handed_from(islands.take(count), number)
    &&& forall|number: usize| #[trigger]
        found.consumers.contains(number) <==> is_handed_to(islands.take(count), number)
    &&& forall|i: int, p: int| #[trigger]
        hands_on(islands.take(count), i, p) ==> has_handoff(
            found.allocations,
            islands[i].dispatches[p],
            islands[i].dispatches[p + 1],
        )
}

proof fn lemma_island_handoffs(
    islands: Seq<VulkanPhysicalExecutionIslandPlanModel>,
    index: nat,
    found: PrivateHandoffsModel,
)
    requires
        index <= islands.len(),
        island_handoffs_found(islands, index as int, found),
        fold_from(islands, index, found, handoff_step()) is Ok,
    ensures
        island_handoffs_found(
            islands,
            islands.len() as int,
            fold_from(islands, index, found, handoff_step())->Ok_0,
        ),
    decreases islands.len() - index,
{
    if index < islands.len() {
        let next = handoffs_from(islands[index as int].dispatches, 1, found)->Ok_0;
        lemma_island_looked_at(islands, index as int, found, next);
        lemma_island_handoffs(islands, index + 1, next);
    } else {
        assert(islands.take(index as int) =~= islands.take(islands.len() as int));
    }
}

proof fn lemma_island_looked_at(
    islands: Seq<VulkanPhysicalExecutionIslandPlanModel>,
    last: int,
    found: PrivateHandoffsModel,
    next: PrivateHandoffsModel,
)
    requires
        0 <= last < islands.len(),
        island_handoffs_found(islands, last, found),
        handoffs_from(islands[last].dispatches, 1, found) == Ok::<PrivateHandoffsModel, Seq<char>>(
            next,
        ),
    ensures
        island_handoffs_found(islands, last + 1, next),
{
    let dispatches = islands[last].dispatches;
    let some = islands.take(last);
    let more = islands.take(last + 1);
    assert(forall|p: int| #[trigger] hands_at(dispatches, p) ==> 0 <= p < dispatches.len() - 1)
        by {
        reveal(hands_at);
    }
    assert(handoffs_found(dispatches, 1, found, found));
    lemma_handoffs(dispatches, 1, found, found);
    let count = if 1 < dispatches.len() {
        dispatches.len() as int
    } else {
        1
    };
    assert(handoffs_found(dispatches, count, found, next));
    assert forall|number: usize| #[trigger]
        next.producers.contains(number) <==> is_handed_from(more, number) by {
        assert(found.producers.contains(number) <==> is_handed_from(some, number));
        if is_handed_from(some, number) {
            let (i, p) = choose|i: int, p: int| #[trigger]
                hands_on(some, i, p) && some[i].dispatches[p].dispatch_index == number;
            assert(hands_on(more, i, p));
        }
        if hands_from(dispatches, count, number) {
            let p = choose|p: int| #[trigger]
                hands_at(dispatches, p) && p < count - 1 && dispatches[p].dispatch_index == number;
            assert(hands_on(more, last, p));
        }
        if is_handed_from(more, number) {
            let (i, p) = choose|i: int, p: int| #[trigger]
                hands_on(more, i, p) && more[i].dispatches[p].dispatch_index == number;
            if i < last {
                assert(hands_on(some, i, p));
            } else {
                assert(hands_at(dispatches, p));
            }
        }
    }
    assert forall|number: usize| #[trigger]
        next.consumers.contains(number) <==> is_handed_to(more, number) by {
        assert(found.consumers.contains(number) <==> is_handed_to(some, number));
        if is_handed_to(some, number) {
            let (i, p) = choose|i: int, p: int| #[trigger]
                hands_on(some, i, p) && some[i].dispatches[p + 1].dispatch_index == number;
            assert(hands_on(more, i, p));
        }
        if hands_to(dispatches, count, number) {
            let p = choose|p: int| #[trigger]
                hands_at(dispatches, p) && p < count - 1 && dispatches[p + 1].dispatch_index
                    == number;
            assert(hands_on(more, last, p));
        }
        if is_handed_to(more, number) {
            let (i, p) = choose|i: int, p: int| #[trigger]
                hands_on(more, i, p) && more[i].dispatches[p + 1].dispatch_index == number;
            if i < last {
                assert(hands_on(some, i, p));
            } else {
                assert(hands_at(dispatches, p));
            }
        }
    }
    assert forall|i: int, p: int| #[trigger] hands_on(more, i, p) implies has_handoff(
        next.allocations,
        islands[i].dispatches[p],
        islands[i].dispatches[p + 1],
    ) by {
        if i < last {
            assert(hands_on(some, i, p));
            lemma_handoff_kept(
                found.allocations,
                next.allocations,
                islands[i].dispatches[p],
                islands[i].dispatches[p + 1],
            );
        } else {
            assert(hands_at(dispatches, p));
        }
    }
}

/// The handoffs of islands are those between neighbours of one island that can hand on.
proof fn lemma_handoffs_of_islands(islands: Seq<VulkanPhysicalExecutionIslandPlanModel>)
    requires
        private_handoffs(islands) is Ok,
    ensures
        ({
            let found = private_handoffs(islands)->Ok_0;
            &&& forall|number: usize| #[trigger]
                found.producers.contains(number) <==> is_handed_from(islands, number)
            &&& forall|number: usize| #[trigger]
                found.consumers.contains(number) <==> is_handed_to(islands, number)
            &&& forall|i: int, p: int| #[trigger]
                hands_on(islands, i, p) ==> has_handoff(
                    found.allocations,
                    islands[i].dispatches[p],
                    islands[i].dispatches[p + 1],
                )
        }),
{
    let none = islands.take(0);
    assert(forall|i: int, p: int| !(#[trigger] hands_on(none, i, p)));
    assert(island_handoffs_found(islands, 0, no_handoffs()));
    lemma_island_handoffs(islands, 0, no_handoffs());
    assert(islands.take(islands.len() as int) =~= islands);
}

/// What one dispatch of an island hands to the next on the same devices has a private buffer
/// on every one of them, as large as what is written there.
pub proof fn law_handoffs_have_private_buffers(
    plan: VulkanDistributedExecutionPlanModel,
    island: int,
    pair: int,
)
    requires
        plan_buffers(plan) is Ok,
        hands_on(plan.execution_islands, island, pair),
    ensures
        has_handoff(
            plan_buffers(plan)->Ok_0.private_intermediate_allocations,
            plan.execution_islands[island].dispatches[pair],
            plan.execution_islands[island].dispatches[pair + 1],
        ),
{
    lemma_handoffs_of_islands(plan.execution_islands);
}

/// A shared buffer holds an activation for a device: it stands where the activation is held,
/// has its size, and the device sees it.
pub open spec fn holds_for(
    allocation: VulkanDistributedActivationBufferAllocationModel,
    owner_device_id: Seq<char>,
    activation: VulkanDistributedActivationSlotModel,
) -> bool {
    &&& allocation.storage == activation.storage
    &&& is_held_by(activation, owner_device_id, allocation.owner_device_id)
    &&& allocation.byte_capacity == activation.byte_capacity
    &&& activation.storage is ActivationSlot ==> allocation.slot == activation.slot
        && allocation.component_id == activation.component_id
    &&& activation.storage is BoundaryInput || activation.storage is BoundaryOutput
        ==> allocation.component_id == activation.component_id && allocation.signal_ids.contains(
        activation.signal_id,
    )
}

/// Some shared buffer holds an activation for every device with a shard of a dispatch.
pub open spec fn is_shared_by_shards(
    allocations: Seq<VulkanDistributedActivationBufferAllocationModel>,
    dispatch: VulkanDistributedDispatchPlanModel,
    activation: VulkanDistributedActivationSlotModel,
) -> bool {
    exists|k: int|
        0 <= k < allocations.len() && holds_for(
            #[trigger] allocations[k],
            dispatch.owner_device_id,
            activation,
        ) && forall|s: int|
            0 <= s < dispatch.shards.len() ==> allocations[k].device_ids.contains(
                (#[trigger] dispatch.shards[s]).device_id,
            )
}

/// Some shared buffer holds an activation for a device.
pub open spec fn is_shared_by(
    allocations: Seq<VulkanDistributedActivationBufferAllocationModel>,
    owner_device_id: Seq<char>,
    activation: VulkanDistributedActivationSlotModel,
    device_id: Seq<char>,
) -> bool {
    exists|k: int|
        0 <= k < allocations.len() && holds_for(
            #[trigger] allocations[k],
            owner_device_id,
            activation,
        ) && allocations[k].device_ids.contains(device_id)
}

proof fn lemma_shared_by_shards(
    allocations: Seq<VulkanDistributedActivationBufferAllocationModel>,
    dispatch: VulkanDistributedDispatchPlanModel,
    activation: VulkanDistributedActivationSlotModel,
)
    requires
        is_allocated(
            allocations,
            dispatch.owner_device_id,
            activation,
            shard_device_ids(dispatch.shards).to_set(),
        ),
    ensures
        is_shared_by_shards(allocations, dispatch, activation),
{
    let ids = shard_device_ids(dispatch.shards);
    let k = choose|k: int|
        0 <= k < allocations.len() && crate::activation_plans::allocation_matches(
            dispatch.owner_device_id,
            activation,
            #[trigger] allocations[k],
        ) && allocations[k].byte_capacity == activation.byte_capacity && ids.to_set().subset_of(
            allocations[k].device_ids.to_set(),
        );
    assert(holds_for(allocations[k], dispatch.owner_device_id, activation));
    assert forall|s: int| 0 <= s < dispatch.shards.len() implies allocations[k].device_ids.contains(
        (#[trigger] dispatch.shards[s]).device_id,
    ) by {
        assert(ids[s] == dispatch.shards[s].device_id);
        assert(ids.to_set().contains(ids[s]));
        assert(allocations[k].device_ids.to_set().contains(ids[s]));
    }
}

/// Every device with a shard of a dispatch sees shared buffers of what the dispatch reads: of
/// its input, unless the dispatch before hands it on, of every auxiliary input and of what
/// selects its resources. Where nothing is handed on, its output has a shared buffer that
/// every such device sees, or only the owner where partial outputs are reduced.
pub proof fn law_shards_see_what_their_dispatch_uses(
    plan: VulkanDistributedExecutionPlanModel,
    index: int,
)
    requires
        plan_buffers(plan) is Ok,
        0 <= index < plan.dispatches.len(),
    ensures
        ({
            let dispatch = plan.dispatches[index];
            let allocations = plan_buffers(plan)->Ok_0.allocations;
            &&& is_handed_to(plan.execution_islands, dispatch.dispatch_index)
                || is_shared_by_shards(allocations, dispatch, dispatch.input_activation)
            &&& forall|a: int|
                0 <= a < dispatch.auxiliary_input_activations.len() ==> is_shared_by_shards(
                    allocations,
                    dispatch,
                    #[trigger] dispatch.auxiliary_input_activations[a],
                )
            &&& forall|a: int|
                0 <= a < dispatch.selected_resource_activations.len() ==> is_shared_by_shards(
                    allocations,
                    dispatch,
                    #[trigger] dispatch.selected_resource_activations[a],
                )
            &&& is_handed_from(plan.execution_islands, dispatch.dispatch_index)
                || dispatch.reduction is Some || is_shared_by_shards(
                allocations,
                dispatch,
                dispatch.output_activation,
            )
            &&& is_handed_from(plan.execution_islands, dispatch.dispatch_index)
                || dispatch.reduction is None || is_shared_by(
                allocations,
                dispatch.owner_device_id,
                dispatch.output_activation,
                dispatch.owner_device_id,
            )
        }),
{
    let dispatch = plan.dispatches[index];
    let allocations = plan_buffers(plan)->Ok_0.allocations;
    let handoffs = private_handoffs(plan.execution_islands)->Ok_0;
    lemma_handoffs_of_islands(plan.execution_islands);
    law_planned_activations_are_allocated(plan, index);
    let inputs = shared_inputs(dispatch, handoffs.consumers);
    let first = if handoffs.consumers.contains(dispatch.dispatch_index) {
        0int
    } else {
        1
    };
    let ids = shard_device_ids(dispatch.shards).to_set();
    if !is_handed_to(plan.execution_islands, dispatch.dispatch_index) {
        assert(inputs[0] == dispatch.input_activation);
        lemma_shared_by_shards(allocations, dispatch, inputs[0]);
    }
    assert forall|a: int| 0 <= a < dispatch.auxiliary_input_activations.len() implies
        is_shared_by_shards(
        allocations,
        dispatch,
        #[trigger] dispatch.auxiliary_input_activations[a],
    ) by {
        assert(inputs[first + a] == dispatch.auxiliary_input_activations[a]);
        lemma_shared_by_shards(allocations, dispatch, inputs[first + a]);
    }
    assert forall|a: int| 0 <= a < dispatch.selected_resource_activations.len() implies
        is_shared_by_shards(
        allocations,
        dispatch,
        #[trigger] dispatch.selected_resource_activations[a],
    ) by {
        let place = first + dispatch.auxiliary_input_activations.len() + a;
        assert(inputs[place] == dispatch.selected_resource_activations[a]);
        lemma_shared_by_shards(allocations, dispatch, inputs[place]);
    }
    if !is_handed_from(plan.execution_islands, dispatch.dispatch_index) {
        if dispatch.reduction is None {
            lemma_shared_by_shards(allocations, dispatch, dispatch.output_activation);
        } else {
            let devices = Set::empty().insert(dispatch.owner_device_id);
            let k = choose|k: int|
                0 <= k < allocations.len() && crate::activation_plans::allocation_matches(
                    dispatch.owner_device_id,
                    dispatch.output_activation,
                    #[trigger] allocations[k],
                ) && allocations[k].byte_capacity == dispatch.output_activation.byte_capacity
                    && devices.subset_of(allocations[k].device_ids.to_set());
            assert(devices.contains(dispatch.owner_device_id));
            assert(allocations[k].device_ids.to_set().contains(dispatch.owner_device_id));
            assert(holds_for(
                allocations[k],
                dispatch.owner_device_id,
                dispatch.output_activation,
            ));
        }
    }
}

/// The devices of every dispatch belong to the pool of the plan, and its owner is one of them.
pub proof fn law_dispatches_stay_in_the_pool(
    plan: VulkanDistributedExecutionPlanModel,
    index: int,
)
    requires
        plan_buffers(plan) is Ok,
        0 <= index < plan.dispatches.len(),
    ensures
        ({
            let dispatch = plan.dispatches[index];
            &&& forall|s: int|
                0 <= s < dispatch.shards.len() ==> plan.device_ids.contains(
                    (#[trigger] dispatch.shards[s]).device_id,
                )
            &&& exists|s: int|
                0 <= s < dispatch.shards.len() && (#[trigger] dispatch.shards[s]).device_id
                    == dispatch.owner_device_id
        }),
{
    let handoffs = private_handoffs(plan.execution_islands)->Ok_0;
    let pool = plan.device_ids.to_set();
    lemma_uses_checked(
        pool,
        handoffs.producers,
        handoffs.consumers,
        plan.dispatches,
        0,
        no_uses(),
        index,
    );
    let dispatch = plan.dispatches[index];
    let ids = shard_device_ids(dispatch.shards);
    let members = ordered_members::<String>(ids.to_set());
    ids.lemma_cardinality_of_set();
    lemma_members_listed::<String>(ids.to_set());
    assert(ids.to_set().contains(dispatch.owner_device_id));
    let o = choose|o: int| 0 <= o < ids.len() && ids[o] == dispatch.owner_device_id;
    assert(dispatch.shards[o].device_id == dispatch.owner_device_id);
    assert forall|s: int| 0 <= s < dispatch.shards.len() implies plan.device_ids.contains(
        (#[trigger] dispatch.shards[s]).device_id,
    ) by {
        assert(ids[s] == dispatch.shards[s].device_id);
        assert(ids.to_set().contains(ids[s]));
        assert(members.to_set().contains(ids[s]));
        let k = choose|k: int| 0 <= k < members.len() && members[k] == ids[s];
        lemma_none_found(members, 0, |device_id: Seq<char>| !pool.contains(device_id), k);
        assert(pool.contains(ids[s]));
    }
}

pub proof fn lemma_none_found<T>(items: Seq<T>, start: nat, condition: spec_fn(T) -> bool, place: int)
    requires
        find_from(items, start, condition) is None,
        start <= place < items.len(),
    ensures
        !condition(items[place]),
    decreases items.len() - start,
{
    if start < place {
        lemma_none_found(items, start + 1, condition, place);
    }
}

proof fn lemma_uses_checked(
    pool: Set<Seq<char>>,
    producers: Set<usize>,
    consumers: Set<usize>,
    dispatches: Seq<VulkanDistributedDispatchPlanModel>,
    index: nat,
    found: ActivationUsesModel,
    place: int,
)
    requires
        index <= place < dispatches.len(),
        fold_from(dispatches, index, found, use_step(pool, producers, consumers)) is Ok,
    ensures
        crate::activation_building::participation_fault(dispatches[place], pool) is None,
    decreases dispatches.len() - index,
{
    if index < place {
        let next = use_step(pool, producers, consumers)(found, dispatches[index as int])->Ok_0;
        lemma_uses_checked(pool, producers, consumers, dispatches, index + 1, next, place);
    }
}

/// The allocation holds the partial outputs of a dispatch: one plane after another for every
/// device with a shard, each as large as a partial output.
pub open spec fn holds_partials(
    dispatch: VulkanDistributedDispatchPlanModel,
    allocation: VulkanDistributedReductionBufferAllocationModel,
) -> bool {
    &&& dispatch.reduction is Some
    &&& allocation.owner_device_id == dispatch.owner_device_id
    &&& allocation.dispatch_index == dispatch.dispatch_index
    &&& allocation.component_id == dispatch.component_id
    &&& allocation.node_id == dispatch.node_id
    &&& allocation.plane_byte_capacity == dispatch.reduction->0.partial_byte_capacity
    &&& allocation.device_ids.len() == dispatch.shards.len()
    &&& forall|s: int|
        0 <= s < dispatch.shards.len() ==> #[trigger] allocation.device_ids[s]
            == dispatch.shards[s].device_id
    &&& allocation.byte_capacity == allocation.plane_byte_capacity * dispatch.shards.len()
}

/// Every reduction of the first dispatches has its buffer, and every buffer is of one.
pub open spec fn reductions_found(
    dispatches: Seq<VulkanDistributedDispatchPlanModel>,
    count: int,
    reductions: Seq<VulkanDistributedReductionBufferAllocationModel>,
) -> bool {
    &&& forall|d: int|
        0 <= d < count && (#[trigger] dispatches[d]).reduction is Some ==> has_partials(
            reductions,
            dispatches[d],
        )
    &&& forall|k: int|
        0 <= k < reductions.len() ==> is_of_some_dispatch(
            dispatches,
            count,
            #[trigger] reductions[k],
        )
}

/// Some buffer of a list holds the partial outputs of a dispatch.
pub open spec fn has_partials(
    reductions: Seq<VulkanDistributedReductionBufferAllocationModel>,
    dispatch: VulkanDistributedDispatchPlanModel,
) -> bool {
    exists|k: int|
        0 <= k < reductions.len() && holds_partials(dispatch, #[trigger] reductions[k])
}

/// A buffer holds the partial outputs of one of the first dispatches.
pub open spec fn is_of_some_dispatch(
    dispatches: Seq<VulkanDistributedDispatchPlanModel>,
    count: int,
    reduction: VulkanDistributedReductionBufferAllocationModel,
) -> bool {
    exists|d: int| 0 <= d < count && holds_partials(#[trigger] dispatches[d], reduction)
}

proof fn lemma_reduction_added(
    pool: Set<Seq<char>>,
    producers: Set<usize>,
    consumers: Set<usize>,
    dispatch: VulkanDistributedDispatchPlanModel,
    found: ActivationUsesModel,
)
    requires
        use_step(pool, producers, consumers)(found, dispatch) is Ok,
    ensures
        ({
            let next = use_step(pool, producers, consumers)(found, dispatch)->Ok_0;
            &&& dispatch.reduction is None ==> next.reductions == found.reductions
            &&& dispatch.reduction is Some ==> next.reductions == found.reductions.push(
                next.reductions.last(),
            ) && holds_partials(dispatch, next.reductions.last())
        }),
{
    if dispatch.reduction is Some {
        let bytes = dispatch.reduction->0.partial_byte_capacity;
        let count = dispatch.shards.len();
        assert(bytes * count >= 0) by (nonlinear_arith);
    }
}

proof fn lemma_reductions_found(
    pool: Set<Seq<char>>,
    producers: Set<usize>,
    consumers: Set<usize>,
    dispatches: Seq<VulkanDistributedDispatchPlanModel>,
    index: nat,
    found: ActivationUsesModel,
)
    requires
        index <= dispatches.len(),
        reductions_found(dispatches, index as int, found.reductions),
        fold_from(dispatches, index, found, use_step(pool, producers, consumers)) is Ok,
    ensures
        reductions_found(
            dispatches,
            dispatches.len() as int,
            fold_from(
                dispatches,
                index,
                found,
                use_step(pool, producers, consumers),
            )->Ok_0.reductions,
        ),
    decreases dispatches.len() - index,
{
    if index < dispatches.len() {
        let dispatch = dispatches[index as int];
        let next = use_step(pool, producers, consumers)(found, dispatch)->Ok_0;
        lemma_reduction_added(pool, producers, consumers, dispatch, found);
        assert forall|d: int|
            0 <= d < index + 1 && (
            #[trigger] dispatches[d]).reduction is Some implies has_partials(
            next.reductions,
            dispatches[d],
        ) by {
            if d < index {
                assert(has_partials(found.reductions, dispatches[d]));
                let k = choose|k: int|
                    0 <= k < found.reductions.len() && holds_partials(
                        dispatches[d],
                        #[trigger] found.reductions[k],
                    );
                assert(next.reductions[k] == found.reductions[k]);
            }
        }
        assert forall|k: int| 0 <= k < next.reductions.len() implies is_of_some_dispatch(
            dispatches,
            index as int + 1,
            #[trigger] next.reductions[k],
        ) by {
            if k < found.reductions.len() {
                assert(next.reductions[k] == found.reductions[k]);
                assert(is_of_some_dispatch(dispatches, index as int, found.reductions[k]));
                let d = choose|d: int|
                    0 <= d < index && holds_partials(#[trigger] dispatches[d], found.reductions[k]);
                assert(holds_partials(dispatches[d], next.reductions[k]));
            } else {
                assert(holds_partials(dispatches[index as int], next.reductions[k]));
            }
        }
        lemma_reductions_found(pool, producers, consumers, dispatches, index + 1, next);
    }
}

/// Every dispatch whose partial outputs are reduced has a buffer with one plane for every
/// shard, and there is no other buffer of that kind.
pub proof fn law_partial_outputs_have_planes(plan: VulkanDistributedExecutionPlanModel)
    requires
        plan_buffers(plan) is Ok,
    ensures
        reductions_found(
            plan.dispatches,
            plan.dispatches.len() as int,
            plan_buffers(plan)->Ok_0.reduction_allocations,
        ),
{
    let handoffs = private_handoffs(plan.execution_islands)->Ok_0;
    lemma_reductions_found(
        plan.device_ids.to_set(),
        handoffs.producers,
        handoffs.consumers,
        plan.dispatches,
        0,
        no_uses(),
    );
}

/// The totals of a plan of buffers are those of its lists: every shared buffer is imported by
/// each of its devices and counts its uses; a reduction is written by each device and read by
/// its owner; and a private buffer is written and read where it stands.
pub proof fn law_totals_are_those_of_the_lists(plan: VulkanDistributedExecutionPlanModel)
    requires
        plan_buffers(plan) is Ok,
    ensures
        ({
            let buffers = plan_buffers(plan)->Ok_0;
            let private_count = sum_of(
                buffers.private_intermediate_allocations,
                |allocation: VulkanDistributedPrivateIntermediateBufferAllocationModel|
                    allocation.devices.len(),
            );
            &&& buffers.route == plan.shared_activation_route
            &&& buffers.allocation_count == buffers.allocations.len()
                + buffers.reduction_allocations.len() + private_count
            &&& buffers.import_count == sum_of(
                buffers.allocations,
                |allocation: VulkanDistributedActivationBufferAllocationModel|
                    allocation.device_ids.len(),
            ) + sum_of(
                buffers.reduction_allocations,
                |allocation: VulkanDistributedReductionBufferAllocationModel|
                    allocation.device_ids.len(),
            )
            &&& buffers.reference_count == sum_of(
                buffers.allocations,
                |allocation: VulkanDistributedActivationBufferAllocationModel|
                    (allocation.input_use_count + allocation.output_use_count) as nat,
            ) + sum_of(
                buffers.reduction_allocations,
                |allocation: VulkanDistributedReductionBufferAllocationModel|
                    allocation.device_ids.len() + 1,
            ) + 2 * private_count
            &&& buffers.total_shared_byte_capacity == sum_of(
                buffers.allocations,
                |allocation: VulkanDistributedActivationBufferAllocationModel|
                    allocation.byte_capacity as nat,
            ) + sum_of(
                buffers.reduction_allocations,
                |allocation: VulkanDistributedReductionBufferAllocationModel|
                    allocation.byte_capacity as nat,
            )
            &&& buffers.total_private_byte_capacity == sum_of(
                buffers.private_intermediate_allocations,
                |allocation: VulkanDistributedPrivateIntermediateBufferAllocationModel|
                    sum_of(
                        allocation.devices,
                        |device: VulkanDistributedPrivateIntermediateDeviceAllocationModel|
                            device.byte_capacity as nat,
                    ),
            )
        }),
{
    let buffers = plan_buffers(plan)->Ok_0;
    lemma_same_sums(
        buffers.private_intermediate_allocations,
        crate::activation_building::private_devices(),
        |allocation: VulkanDistributedPrivateIntermediateBufferAllocationModel|
            allocation.devices.len(),
    );
    lemma_same_sums(
        buffers.allocations,
        crate::activation_building::sharing_devices(),
        |allocation: VulkanDistributedActivationBufferAllocationModel| allocation.device_ids.len(),
    );
    lemma_same_sums(
        buffers.reduction_allocations,
        crate::activation_building::reducing_devices(),
        |allocation: VulkanDistributedReductionBufferAllocationModel| allocation.device_ids.len(),
    );
    lemma_same_sums(
        buffers.allocations,
        crate::activation_building::sharing_uses(),
        |allocation: VulkanDistributedActivationBufferAllocationModel|
            (allocation.input_use_count + allocation.output_use_count) as nat,
    );
    lemma_same_sums(
        buffers.reduction_allocations,
        crate::activation_building::reducing_uses(),
        |allocation: VulkanDistributedReductionBufferAllocationModel|
            allocation.device_ids.len() + 1,
    );
    lemma_same_sums(
        buffers.allocations,
        crate::activation_building::sharing_bytes(),
        |allocation: VulkanDistributedActivationBufferAllocationModel|
            allocation.byte_capacity as nat,
    );
    lemma_same_sums(
        buffers.reduction_allocations,
        crate::activation_building::reducing_bytes(),
        |allocation: VulkanDistributedReductionBufferAllocationModel|
            allocation.byte_capacity as nat,
    );
    let bytes = |allocation: VulkanDistributedPrivateIntermediateBufferAllocationModel|
        sum_of(
            allocation.devices,
            |device: VulkanDistributedPrivateIntermediateDeviceAllocationModel|
                device.byte_capacity as nat,
        );
    assert forall|i: int|
        0 <= i < buffers.private_intermediate_allocations.len() implies #[trigger] bytes(
        buffers.private_intermediate_allocations[i],
    ) == crate::activation_building::private_bytes()(
        buffers.private_intermediate_allocations[i],
    ) by {
        lemma_same_sums(
            buffers.private_intermediate_allocations[i].devices,
            crate::activation_building::device_bytes(),
            |device: VulkanDistributedPrivateIntermediateDeviceAllocationModel|
                device.byte_capacity as nat,
        );
    }
    lemma_same_sums(
        buffers.private_intermediate_allocations,
        crate::activation_building::private_bytes(),
        bytes,
    );
}

/// Equal measures have equal sums.
pub proof fn lemma_same_sums<T>(items: Seq<T>, left: spec_fn(T) -> nat, right: spec_fn(T) -> nat)
    requires
        forall|i: int| 0 <= i < items.len() ==> left(items[i]) == #[trigger] right(items[i]),
    ensures
        sum_of(items, left) == sum_of(items, right),
    decreases items.len(),
{
    if items.len() > 0 {
        let rest = items.drop_last();
        assert forall|i: int| 0 <= i < rest.len() implies left(rest[i]) == #[trigger] right(
            rest[i],
        ) by {
            assert(left(items[i]) == right(items[i]));
        }
        lemma_same_sums(rest, left, right);
        assert(left(items[items.len() - 1]) == right(items[items.len() - 1]));
    }
}

} // verus!
