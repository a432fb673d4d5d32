//! Laws of making the runners of islands.
use vstd::prelude::*;

use crate::activation_lookups::activation_seen;
use crate::execution_plans::{
    VulkanDistributedDispatchPlanModel, VulkanPhysicalExecutionIslandPlanModel,
};
use crate::island_laws::are_numbered_apart;
use crate::islands::hands_off_locally;
use crate::resident::VulkanResidentBuffer;
use crate::runner_bindings::{
    selecting_activation, shard_constants, shard_kernel, VulkanDistributedRunnerInputsModel,
};
use crate::runner_stages::{
    all_helper_stages, coordinator_kind, gate_count, gate_steps, guard_tag, helper_stages,
    is_reduced, island_kernel, private_source, private_target, selector_gate, shard_opening,
    shard_steps, stage_numbers, steps_from, with_coordinator, VulkanDistributedDeviceRequestModel,
    VulkanDistributedRunnerStageModel, VulkanDistributedSequenceStepModel,
    VulkanDistributedStageProduct,
};
use crate::sequences::kept;

verus! {

/// Some dispatch of an island has its partial outputs reduced.
pub open spec fn reduces_at(
    dispatches: Seq<VulkanDistributedDispatchPlanModel>,
    index: int,
) -> bool {
    0 <= index < dispatches.len() && dispatches[index].reduction is Some
}

proof fn lemma_kept_none<T>(items: Seq<T>, condition: spec_fn(T) -> bool)
    requires
        forall|i: int| 0 <= i < items.len() ==> !condition(#[trigger] items[i]),
    ensures
        kept(items, condition).len() == 0,
    decreases items.len(),
{
    if items.len() > 0 {
        let rest = items.drop_last();
        assert forall|i: int| 0 <= i < rest.len() implies !condition(#[trigger] rest[i]) by {
            assert(!condition(items[i]));
        }
        lemma_kept_none(rest, condition);
        assert(!condition(items[items.len() - 1]));
    }
}

pub proof fn lemma_kept_one<T>(items: Seq<T>, condition: spec_fn(T) -> bool, place: int)
    requires
        0 <= place < items.len(),
        condition(items[place]),
    ensures
        kept(items, condition).len() >= 1,
        kept(items, condition).len() == 1 <==> forall|i: int|
            0 <= i < items.len() && i != place ==> !condition(#[trigger] items[i]),
        kept(items, condition).len() == 1 ==> kept(items, condition)[0] == items[place],
    decreases items.len(),
{
    let rest = items.drop_last();
    let last = items.len() - 1;
    if place < last {
        lemma_kept_one(rest, condition, place);
        assert forall|i: int| 0 <= i < rest.len() implies #[trigger] rest[i] == items[i] by {}
        if condition(items[last]) {
            assert(kept(items, condition).len() >= 2);
        } else if kept(rest, condition).len() == 1 {
            assert forall|i: int| 0 <= i < items.len() && i != place implies !condition(
                #[trigger] items[i],
            ) by {
                if i < last {
                    assert(rest[i] == items[i]);
                }
            }
        } else if forall|i: int|
            0 <= i < items.len() && i != place ==> !condition(#[trigger] items[i]) {
            assert forall|i: int| 0 <= i < rest.len() && i != place implies !condition(
                #[trigger] rest[i],
            ) by {
                assert(!condition(items[i]));
            }
        }
    } else {
        if forall|i: int| 0 <= i < items.len() && i != place ==> !condition(#[trigger] items[i]) {
            assert forall|i: int| 0 <= i < rest.len() implies !condition(#[trigger] rest[i]) by {
                assert(!condition(items[i]));
            }
            lemma_kept_none(rest, condition);
        } else {
            let i = choose|i: int|
                0 <= i < items.len() && i != place && condition(#[trigger] items[i]);
            assert(rest[i] == items[i]);
            lemma_kept_one(rest, condition, i);
        }
    }
}

/// The owner of an island reduces after the shards exactly where the last dispatch and no
/// other is to be reduced, and any other reduction is refused. Without one the owner commits
/// residency where predicates were made, and otherwise does nothing.
pub proof fn law_owners_reduce_or_commit(
    dispatches: Seq<VulkanDistributedDispatchPlanModel>,
    has_predicates: bool,
)
    requires
        dispatches.len() > 0,
        are_numbered_apart(dispatches),
    ensures
        ({
            let kind = coordinator_kind(dispatches, has_predicates);
            let last = dispatches.len() - 1;
            &&& kind is Ok <==> forall|i: int| 0 <= i < last ==> !#[trigger] reduces_at(dispatches, i)
            &&& kind is Ok ==> (kind->Ok_0 is NumericReduction <==> reduces_at(dispatches, last))
            &&& kind is Ok && !reduces_at(dispatches, last) ==> (kind->Ok_0 is ResidencyCommit
                <==> has_predicates)
        }),
{
    let condition = is_reduced();
    let last = dispatches.len() - 1;
    let reduced = kept(dispatches, condition);
    if forall|i: int| 0 <= i < dispatches.len() ==> !#[trigger] reduces_at(dispatches, i) {
        assert forall|i: int| 0 <= i < dispatches.len() implies !condition(
            #[trigger] dispatches[i],
        ) by {
            assert(!reduces_at(dispatches, i));
        }
        lemma_kept_none(dispatches, condition);
        assert(!reduces_at(dispatches, last));
    } else {
        let i = choose|i: int| 0 <= i < dispatches.len() && #[trigger] reduces_at(dispatches, i);
        lemma_kept_one(dispatches, condition, i);
        if reduced.len() == 1 {
            if i < last {
                assert(dispatches[i].dispatch_index != dispatches[last].dispatch_index);
                assert(reduces_at(dispatches, i));
            } else {
                assert forall|k: int| 0 <= k < last implies !#[trigger] reduces_at(
                    dispatches,
                    k,
                ) by {
                    assert(!condition(dispatches[k]));
                }
            }
        } else {
            let k = choose|k: int|
                0 <= k < dispatches.len() && k != i && condition(#[trigger] dispatches[k]);
            assert(reduces_at(dispatches, k));
            assert(reduces_at(dispatches, i));
        }
    }
}

/// What the owner of an island does after the shards is asked of its own device: it reduces
/// the last dispatch, or commits the last one, with the predicate of its own device and all
/// predicates that were made for the island.
pub proof fn law_coordinators_stand_on_the_owner(
    inputs: VulkanDistributedRunnerInputsModel,
    island: VulkanPhysicalExecutionIslandPlanModel,
    island_index: nat,
    stages: Seq<VulkanDistributedRunnerStageModel>,
)
    requires
        island.dispatches.len() > 0,
        are_numbered_apart(island.dispatches),
        island_index <= usize::MAX,
        stages.len() <= usize::MAX,
        with_coordinator(inputs, island, island_index, stages) is Ok,
    ensures
        ({
            let all = with_coordinator(inputs, island, island_index, stages)->Ok_0;
            let last = island.dispatches.last();
            &&& all.len() <= stages.len() + 1
            &&& forall|k: int| 0 <= k < stages.len() ==> #[trigger] all[k] == stages[k]
            &&& last.reduction is Some ==> {
                let request = all[stages.len() as int].request;
                &&& all.len() == stages.len() + 1
                &&& request is CreateReduction
                &&& request->CreateReduction_owner_device_id == island.owner_device_id
                &&& request->CreateReduction_dispatch_index == last.dispatch_index
                &&& is_predicate_of(
                    inputs,
                    island.owner_device_id,
                    request->CreateReduction_transaction_predicate,
                )
                &&& are_predicates_of(
                    stages,
                    island_index as usize,
                    request->CreateReduction_predicates,
                )
            }
            &&& last.reduction is None && has_predicates(stages, island_index as usize) ==> {
                let request = all[stages.len() as int].request;
                &&& all.len() == stages.len() + 1
                &&& request is CreateResidencyCommit
                &&& request->CreateResidencyCommit_owner_device_id == island.owner_device_id
                &&& request->CreateResidencyCommit_node_id == last.node_id
                &&& is_predicate_of(
                    inputs,
                    island.owner_device_id,
                    request->CreateResidencyCommit_transaction_predicate,
                )
                &&& are_predicates_of(
                    stages,
                    island_index as usize,
                    request->CreateResidencyCommit_predicates,
                )
            }
            &&& last.reduction is None && !has_predicates(stages, island_index as usize)
                ==> all.len() == stages.len()
        }),
{
    let predicates = stage_numbers(
        stages,
        VulkanDistributedStageProduct::Predicate,
        island_index as usize,
        None,
    );
    let dispatches = island.dispatches;
    law_owners_reduce_or_commit(dispatches, predicates.len() > 0);
    lemma_predicates_numbered(stages, island_index as usize);
    let last = dispatches.len() - 1;
    if reduces_at(dispatches, last) {
        lemma_kept_one(dispatches, is_reduced(), last);
    }
    if has_predicates(stages, island_index as usize) {
        let k = choose|k: int|
            0 <= k < stages.len() && makes_predicate(#[trigger] stages[k], island_index as usize);
        assert(numbers_stage(predicates, k));
    }
    if predicates.len() > 0 {
        let n = predicates[0];
        assert(makes_predicate(stages[n as int], island_index as usize));
    }
}

/// The buffer is the one by which a device takes part in a transaction, if it does.
pub open spec fn is_predicate_of(
    inputs: VulkanDistributedRunnerInputsModel,
    device_id: Seq<char>,
    buffer: Option<VulkanResidentBuffer>,
) -> bool {
    if inputs.transaction_predicates is Some && inputs.transaction_predicates->0.contains_key(
        device_id,
    ) {
        buffer == Some(inputs.transaction_predicates->0[device_id])
    } else {
        buffer is None
    }
}

/// The stage makes a predicate for an island.
pub open spec fn makes_predicate(
    stage: VulkanDistributedRunnerStageModel,
    island: usize,
) -> bool {
    stage.request is CreatePredicate && stage.place.island == island
}

/// Some stage makes a predicate for an island.
pub open spec fn has_predicates(
    stages: Seq<VulkanDistributedRunnerStageModel>,
    island: usize,
) -> bool {
    exists|k: int| 0 <= k < stages.len() && makes_predicate(#[trigger] stages[k], island)
}

/// A stage is among some numbers.
pub open spec fn numbers_stage(numbers: Seq<usize>, stage: int) -> bool {
    exists|n: int| 0 <= n < numbers.len() && #[trigger] numbers[n] == stage
}

/// The numbers are those of the stages that make predicates for an island.
pub open spec fn are_predicates_of(
    stages: Seq<VulkanDistributedRunnerStageModel>,
    island: usize,
    numbers: Seq<usize>,
) -> bool {
    &&& forall|n: int|
        0 <= n < numbers.len() ==> #[trigger] numbers[n] < stages.len() && makes_predicate(
            stages[numbers[n] as int],
            island,
        )
    &&& forall|k: int|
        0 <= k < stages.len() && makes_predicate(#[trigger] stages[k], island) ==> numbers_stage(
            numbers,
            k,
        )
}

proof fn lemma_predicates_numbered(
    stages: Seq<VulkanDistributedRunnerStageModel>,
    island: usize,
)
    requires
        stages.len() <= usize::MAX,
    ensures
        are_predicates_of(
            stages,
            island,
            stage_numbers(stages, VulkanDistributedStageProduct::Predicate, island, None),
        ),
    decreases stages.len(),
{
    if stages.len() > 0 {
        let rest = stages.drop_last();
        let last = stages.len() - 1;
        let product = VulkanDistributedStageProduct::Predicate;
        let earlier = stage_numbers(rest, product, island, None);
        let all = stage_numbers(stages, product, island, None);
        lemma_predicates_numbered(rest, island);
        assert forall|n: int| 0 <= n < all.len() implies #[trigger] all[n] < stages.len()
            && makes_predicate(stages[all[n] as int], island) by {
            if n < earlier.len() {
                assert(all[n] == earlier[n]);
                assert(rest[all[n] as int] == stages[all[n] as int]);
            }
        }
        assert forall|k: int|
            0 <= k < stages.len() && makes_predicate(#[trigger] stages[k], island) implies
            numbers_stage(all, k) by {
            if k < last {
                assert(rest[k] == stages[k]);
                assert(numbers_stage(earlier, k));
                let n = choose|n: int| 0 <= n < earlier.len() && #[trigger] earlier[n] == k;
                assert(all[n] == k);
            } else {
                assert(all[all.len() - 1] == k);
            }
        }
    }
}

/// What a dispatch of an island writes privately on a device is what the next one reads
/// there: both use one buffer where one hands its output to the other, and none otherwise.
pub proof fn law_neighbours_share_a_private_buffer(
    inputs: VulkanDistributedRunnerInputsModel,
    island: VulkanPhysicalExecutionIslandPlanModel,
    index: int,
    device_id: Seq<char>,
)
    requires
        0 <= index < island.dispatches.len() - 1,
        private_target(inputs, island, index, device_id) is Ok,
        private_source(inputs, island, index + 1, device_id) is Ok,
    ensures
        private_target(inputs, island, index, device_id)->Ok_0 == private_source(
            inputs,
            island,
            index + 1,
            device_id,
        )->Ok_0,
        private_target(inputs, island, index, device_id)->Ok_0 is Some <==> hands_off_locally(
            island.dispatches[index],
            island.dispatches[index + 1],
        ),
{
}

/// The first dispatch of an island reads nothing privately, and the last one writes nothing
/// privately.
pub proof fn law_islands_start_and_end_in_shared_buffers(
    inputs: VulkanDistributedRunnerInputsModel,
    island: VulkanPhysicalExecutionIslandPlanModel,
    device_id: Seq<char>,
)
    requires
        island.dispatches.len() > 0,
    ensures
        private_source(inputs, island, 0, device_id) == Ok::<
            Option<VulkanResidentBuffer>,
            Seq<char>,
        >(None),
        private_target(inputs, island, island.dispatches.len() - 1, device_id) == Ok::<
            Option<VulkanResidentBuffer>,
            Seq<char>,
        >(None),
{
}

/// The kernel of a dispatch of an island on a shard runs that shard of the dispatch, from its
/// artifact, on the device on which the island has the shard, and with the private buffers
/// between it and its neighbours.
pub proof fn law_kernels_of_islands_run_their_shard(
    inputs: VulkanDistributedRunnerInputsModel,
    island: VulkanPhysicalExecutionIslandPlanModel,
    shard: nat,
    index: int,
)
    requires
        0 <= index < island.dispatches.len(),
        shard <= usize::MAX,
        island_kernel(inputs, island, shard, index) is Ok,
    ensures
        ({
            let dispatch = island.dispatches[index];
            let device_id = island.dispatches[0].shards[shard as int].device_id;
            let source = private_source(inputs, island, index, device_id);
            let target = private_target(inputs, island, index, device_id);
            &&& shard < dispatch.shards.len()
            &&& dispatch.shards[shard as int].device_id == device_id
            &&& inputs.artifacts.contains_key(dispatch.physical_artifact_id)
            &&& source is Ok && target is Ok
            &&& shard_kernel(
                inputs,
                dispatch,
                dispatch.shards[shard as int],
                shard as usize,
                inputs.artifacts[dispatch.physical_artifact_id],
                source->Ok_0,
                target->Ok_0,
            ) == island_kernel(inputs, island, shard, index)
        }),
{
}

/// Each selector has its gate on the device of the shard, which reads there the one input that
/// carries the selecting signal, as many bytes as the signal has, for one lane, and has a
/// tag that no other gate of the dispatch has and that is not zero.
pub proof fn law_gates_read_what_selects(
    inputs: VulkanDistributedRunnerInputsModel,
    dispatch: VulkanDistributedDispatchPlanModel,
    device_id: Seq<char>,
    index: int,
    other: int,
    transaction_predicate: VulkanResidentBuffer,
    predicate: usize,
)
    requires
        0 <= index < dispatch.selected_resource_partitions.len(),
        0 <= other < dispatch.selected_resource_partitions.len(),
        selector_gate(inputs, dispatch, device_id, index, transaction_predicate, predicate) is Ok,
        selector_gate(inputs, dispatch, device_id, other, transaction_predicate, predicate) is Ok,
    ensures
        ({
            let gate = selector_gate(
                inputs,
                dispatch,
                device_id,
                index,
                transaction_predicate,
                predicate,
            )->Ok_0;
            let second = selector_gate(
                inputs,
                dispatch,
                device_id,
                other,
                transaction_predicate,
                predicate,
            )->Ok_0;
            let partition = dispatch.selected_resource_partitions[index];
            let activation = selecting_activation(dispatch, partition.selection_signal);
            &&& gate.device_id == device_id
            &&& gate.component_id == dispatch.component_id
            &&& gate.node_id == dispatch.node_id
            &&& gate.execution_scope == inputs.execution_scope
            &&& gate.selector_id == partition.selector_id
            &&& activation is Ok
            &&& activation_seen(
                inputs.activations,
                dispatch.owner_device_id,
                activation->Ok_0,
                device_id,
            ) == Some(gate.selection_buffer)
            &&& gate.selection_byte_capacity == activation->Ok_0.signal_byte_capacity
            &&& gate.lane_count == 1
            &&& gate.address_table == inputs.dynamic_resource_buffers[device_id].address_table
            &&& gate.transaction_predicate == transaction_predicate
            &&& gate.predicate == predicate
            &&& gate.checkpoint_tag > 0
            &&& gate.checkpoint_tag == second.checkpoint_tag <==> index == other
        }),
{
}

proof fn lemma_steps(
    inputs: VulkanDistributedRunnerInputsModel,
    island: VulkanPhysicalExecutionIslandPlanModel,
    shard: nat,
    index: nat,
    steps: Seq<VulkanDistributedSequenceStepModel>,
)
    requires
        index <= island.dispatches.len() <= usize::MAX,
        steps_from(inputs, island, shard, index, steps) is Ok,
    ensures
        ({
            let all = steps_from(inputs, island, shard, index, steps)->Ok_0;
            &&& all.len() == steps.len() + (island.dispatches.len() - index)
            &&& forall|k: int| 0 <= k < steps.len() ==> #[trigger] all[k] == steps[k]
            &&& forall|d: int|
                index <= d < island.dispatches.len() ==> runs_dispatch(
                    inputs,
                    island,
                    shard,
                    d,
                    #[trigger] all[steps.len() + (d - index)],
                )
        }),
    decreases island.dispatches.len() - index,
{
    if index < island.dispatches.len() {
        let all = steps_from(inputs, island, shard, index, steps)->Ok_0;
        let device_id = island.dispatches[0].shards[shard as int].device_id;
        let dispatch = island.dispatches[index as int];
        let push_constants = shard_constants(dispatch, dispatch.shards[shard as int])->Ok_0;
        let step = VulkanDistributedSequenceStepModel::Dispatch {
            dispatch: index as usize,
            push_constants,
            guard: if gate_count(inputs, island, device_id) > 0 {
                Some(guard_tag(dispatch.dispatch_index))
            } else {
                None
            },
        };
        let grown = steps.push(step);
        lemma_steps(inputs, island, shard, index + 1, grown);
        assert forall|k: int| 0 <= k < steps.len() implies #[trigger] all[k] == steps[k] by {
            assert(all[k] == grown[k]);
        }
        assert forall|d: int| index <= d < island.dispatches.len() implies runs_dispatch(
            inputs,
            island,
            shard,
            d,
            #[trigger] all[steps.len() + (d - index)],
        ) by {
            if d == index {
                assert(all[steps.len() as int] == grown[steps.len() as int]);
            } else {
                assert(all[grown.len() + (d - (index + 1))] == all[steps.len() + (d - index)]);
            }
        }
    }
}

/// The step runs the kernel of a dispatch of an island with the constants of a shard,
/// guarded by the number of the dispatch exactly where the shard has gates.
pub open spec fn runs_dispatch(
    inputs: VulkanDistributedRunnerInputsModel,
    island: VulkanPhysicalExecutionIslandPlanModel,
    shard: nat,
    dispatch: int,
    step: VulkanDistributedSequenceStepModel,
) -> bool {
    let own = island.dispatches[dispatch];
    &&& step is Dispatch
    &&& step->Dispatch_dispatch == dispatch
    &&& shard_constants(own, own.shards[shard as int]) == Ok::<Seq<u8>, Seq<char>>(
        step->push_constants,
    )
    &&& step->guard is Some <==> has_gates(inputs, island, shard)
    &&& step->guard is Some && own.dispatch_index <= u32::MAX ==> step->guard->0
        == own.dispatch_index
}

/// A shard has gates: the resources of its device are loaded on demand, and the first
/// dispatch of the island selects some.
pub open spec fn has_gates(
    inputs: VulkanDistributedRunnerInputsModel,
    island: VulkanPhysicalExecutionIslandPlanModel,
    shard: nat,
) -> bool {
    let device_id = island.dispatches[0].shards[shard as int].device_id;
    &&& inputs.resource_stores.contains_key(device_id)
    &&& inputs.resource_stores[device_id]
    &&& island.dispatches[0].selected_resource_partitions.len() > 0
}

/// The sequence of a shard passes its gates first, one for every partition of the first
/// dispatch, and then runs every dispatch of the island in turn.
pub proof fn law_sequences_pass_gates_then_run(
    inputs: VulkanDistributedRunnerInputsModel,
    island: VulkanPhysicalExecutionIslandPlanModel,
    shard: nat,
)
    requires
        0 < island.dispatches.len() <= usize::MAX,
        island.dispatches[0].selected_resource_partitions.len() <= usize::MAX,
        shard_steps(inputs, island, shard) is Ok,
    ensures
        ({
            let steps = shard_steps(inputs, island, shard)->Ok_0;
            let gates = if has_gates(inputs, island, shard) {
                island.dispatches[0].selected_resource_partitions.len() as int
            } else {
                0
            };
            &&& steps.len() == gates + island.dispatches.len()
            &&& forall|g: int|
                0 <= g < gates ==> (#[trigger] steps[g]) is Gate && steps[g]->Gate_dispatch == 0
                    && steps[g]->Gate_gate == g
            &&& forall|d: int|
                0 <= d < island.dispatches.len() ==> runs_dispatch(
                    inputs,
                    island,
                    shard,
                    d,
                    #[trigger] steps[gates + d],
                )
        }),
{
    let device_id = island.dispatches[0].shards[shard as int].device_id;
    let first = gate_steps(gate_count(inputs, island, device_id));
    lemma_steps(inputs, island, shard, 0, first);
    let steps = shard_steps(inputs, island, shard)->Ok_0;
    assert forall|g: int| 0 <= g < first.len() implies (
    #[trigger] steps[g]) is Gate && steps[g]->Gate_dispatch == 0 && steps[g]->Gate_gate == g by {
        assert(steps[g] == first[g]);
    }
    assert forall|d: int| 0 <= d < island.dispatches.len() implies runs_dispatch(
        inputs,
        island,
        shard,
        d,
        #[trigger] steps[first.len() + d],
    ) by {
        assert(steps[first.len() + (d - 0)] == steps[first.len() + d]);
    }
}

/// Making a shard finds its device, and makes a predicate there that lets the shard pass at
/// first, exactly where the resources of the device are loaded on demand and the island
/// selects some.
pub proof fn law_shards_open_with_their_device(
    inputs: VulkanDistributedRunnerInputsModel,
    island: VulkanPhysicalExecutionIslandPlanModel,
    island_index: nat,
    shard: nat,
)
    requires
        island_index <= usize::MAX,
        shard <= usize::MAX,
    ensures
        ({
            let stages = shard_opening(inputs, island, island_index, shard);
            let device_id = island.dispatches[0].shards[shard as int].device_id;
            let selects = exists|i: int|
                0 <= i < island.dispatches.len() && (
                #[trigger] island.dispatches[i]).selected_resource_partitions.len() > 0;
            let loaded = inputs.resource_stores.contains_key(device_id)
                && inputs.resource_stores[device_id];
            &&& stages.len() == if selects && loaded {
                2int
            } else {
                1
            }
            &&& stages[0].request == (VulkanDistributedDeviceRequestModel::ResolveDevice {
                device_id,
            })
            &&& selects && loaded ==> stages[1].request == (
            VulkanDistributedDeviceRequestModel::CreatePredicate {
                owner_device_id: island.owner_device_id,
                device_id,
                initial_value: 1,
            }) && stages[1].place.island == island_index && stages[1].place.shard == shard
        }),
{
}

/// The stages connect the owner of an island with the device of a shard.
pub open spec fn connects(
    stages: Seq<VulkanDistributedRunnerStageModel>,
    island: VulkanPhysicalExecutionIslandPlanModel,
    device_id: Seq<char>,
) -> bool {
    exists|k: int|
        0 <= k < stages.len() && (#[trigger] stages[k]).request is Synchronize
            && stages[k].request->Synchronize_owner_device_id == island.owner_device_id
            && stages[k].request->Synchronize_device_id == device_id
}

/// The owner of an island is connected with the device of every shard that is not its own,
/// and with no other.
pub proof fn law_owners_are_connected_with_helpers(
    island: VulkanPhysicalExecutionIslandPlanModel,
    island_index: nat,
    count: nat,
)
    requires
        count <= island.dispatches[0].shards.len(),
    ensures
        forall|s: int|
            0 <= s < count && (#[trigger] island.dispatches[0].shards[s]).device_id
                != island.owner_device_id ==> connects(
                all_helper_stages(island, island_index, count),
                island,
                island.dispatches[0].shards[s].device_id,
            ),
        forall|k: int|
            0 <= k < all_helper_stages(island, island_index, count).len() ==> {
                let request = (#[trigger] all_helper_stages(
                    island,
                    island_index,
                    count,
                )[k]).request;
                request is Synchronize ==> request->Synchronize_owner_device_id
                    == island.owner_device_id && request->Synchronize_device_id
                    != island.owner_device_id
            },
    decreases count,
{
    if count > 0 {
        let less = (count - 1) as nat;
        law_owners_are_connected_with_helpers(island, island_index, less);
        let earlier = all_helper_stages(island, island_index, less);
        let own = helper_stages(island, island_index, less);
        let all = all_helper_stages(island, island_index, count);
        assert forall|s: int|
            0 <= s < count && (#[trigger] island.dispatches[0].shards[s]).device_id
                != island.owner_device_id implies connects(
            all,
            island,
            island.dispatches[0].shards[s].device_id,
        ) by {
            let device_id = island.dispatches[0].shards[s].device_id;
            if s < less {
                assert(connects(earlier, island, device_id));
                let k = choose|k: int|
                    0 <= k < earlier.len() && (#[trigger] earlier[k]).request is Synchronize
                        && earlier[k].request->Synchronize_owner_device_id
                        == island.owner_device_id && earlier[k].request->Synchronize_device_id
                        == device_id;
                assert(all[k] == earlier[k]);
            } else {
                assert(all[earlier.len() as int + 1] == own[1]);
            }
        }
        assert forall|k: int| 0 <= k < all.len() implies {
            let request = (#[trigger] all[k]).request;
            request is Synchronize ==> request->Synchronize_owner_device_id
                == island.owner_device_id && request->Synchronize_device_id
                != island.owner_device_id
        } by {
            if k < earlier.len() {
                assert(all[k] == earlier[k]);
            } else {
                assert(all[k] == own[k - earlier.len()]);
            }
        }
    }
}

} // verus!
