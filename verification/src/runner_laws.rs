//! Laws of the runners of a plan: what is made for every shard, and in which order the
//! work of an island is submitted.
use vstd::prelude::*;

use crate::activation_building::dispatch_name;
use crate::dispatch_runners::{
    assembled, handles_of, lemma_found_at, makes, object_models, ready_points, request_gave,
    stage_kind, stages_gave, RunnerStageKind, VulkanDistributedDeviceObject,
    VulkanDistributedDispatchRunnerModel,
};
use crate::execution_plans::{
    VulkanDistributedDispatchPlanModel, VulkanDistributedDispatchSubmission,
    VulkanDistributedExecutionPlanModel, VulkanPhysicalExecutionIslandPlanModel,
};
use crate::queue_dependencies::{
    VulkanDistributedQueueSynchronization, VulkanTimelineSemaphorePoint,
};
use crate::resident::VulkanResidentBuffer;
use crate::runner_bindings::VulkanDistributedRunnerInputsModel;
use crate::runner_execution::{coordinator, is_helper, submission_plan, submit_stage, submit_stages};
use crate::runner_stages::{
    all_helper_stages, creation_stages, dispatch_stages_from, gate_count, gates_from, helper_stages,
    island_kernel, island_stages_from, selector_gate, shard_opening, shard_stages_from, stage,
    stage_numbers, with_coordinator, with_gates, with_island_stages, with_shard_stages,
    VulkanDistributedDeviceRequest, VulkanDistributedDeviceRequestModel,
    VulkanDistributedRunnerStageModel, VulkanDistributedStagePlace, VulkanDistributedStageProduct,
};
use crate::sequences::{find_from, index_from};
use crate::text::debug_text;

verus! {

/// The number of stages that make this kind of thing for a shard of an island.
pub open spec fn made(
    stages: Seq<VulkanDistributedRunnerStageModel>,
    kind: RunnerStageKind,
    island: usize,
    shard: usize,
) -> nat
    decreases stages.len(),
{
    if stages.len() == 0 {
        0
    } else {
        made(stages.drop_last(), kind, island, shard) + if makes(
            stages.last(),
            kind,
            island,
            shard,
            None,
        ) {
            1nat
        } else {
            0nat
        }
    }
}

proof fn lemma_made_push(
    stages: Seq<VulkanDistributedRunnerStageModel>,
    added: VulkanDistributedRunnerStageModel,
    kind: RunnerStageKind,
    island: usize,
    shard: usize,
)
    ensures
        made(stages.push(added), kind, island, shard) == made(stages, kind, island, shard) + (
        if makes(added, kind, island, shard, None) {
            1nat
        } else {
            0nat
        }),
{
    assert(stages.push(added).drop_last() =~= stages);
}

proof fn lemma_made_joined(
    stages: Seq<VulkanDistributedRunnerStageModel>,
    added: Seq<VulkanDistributedRunnerStageModel>,
    kind: RunnerStageKind,
    island: usize,
    shard: usize,
)
    ensures
        made(stages + added, kind, island, shard) == made(stages, kind, island, shard) + made(
            added,
            kind,
            island,
            shard,
        ),
    decreases added.len(),
{
    if added.len() == 0 {
        assert(stages + added =~= stages);
    } else {
        assert((stages + added).drop_last() =~= stages + added.drop_last());
        lemma_made_joined(stages, added.drop_last(), kind, island, shard);
    }
}

/// Kernels and sequences, which every shard has.
pub open spec fn is_shard_work(kind: RunnerStageKind) -> bool {
    kind is Kernel || kind is Sequence
}

proof fn lemma_gates_make_no_work(
    inputs: VulkanDistributedRunnerInputsModel,
    island_index: nat,
    shard_index: nat,
    dispatch: VulkanDistributedDispatchPlanModel,
    device_id: Seq<char>,
    predicate: VulkanResidentBuffer,
    local: usize,
    index: nat,
    stages: Seq<VulkanDistributedRunnerStageModel>,
    kind: RunnerStageKind,
    island: usize,
    shard: usize,
)
    requires
        is_shard_work(kind),
        gates_from(
            inputs,
            island_index,
            shard_index,
            dispatch,
            device_id,
            predicate,
            local,
            index,
            stages,
        ) is Ok,
    ensures
        made(
            gates_from(
                inputs,
                island_index,
                shard_index,
                dispatch,
                device_id,
                predicate,
                local,
                index,
                stages,
            )->Ok_0,
            kind,
            island,
            shard,
        ) == made(stages, kind, island, shard),
    decreases dispatch.selected_resource_partitions.len() - index,
{
    if index < dispatch.selected_resource_partitions.len() {
        let gate = selector_gate(
            inputs,
            dispatch,
            device_id,
            index as int,
            predicate,
            local,
        )->Ok_0;
        let added = stage(
            island_index,
            shard_index,
            0,
            VulkanDistributedDeviceRequestModel::CreateGate { gate },
            ""@,
        );
        lemma_made_push(stages, added, kind, island, shard);
        lemma_gates_make_no_work(
            inputs,
            island_index,
            shard_index,
            dispatch,
            device_id,
            predicate,
            local,
            index + 1,
            stages.push(added),
            kind,
            island,
            shard,
        );
    }
}

proof fn lemma_dispatches_make_kernels(
    inputs: VulkanDistributedRunnerInputsModel,
    plan: VulkanPhysicalExecutionIslandPlanModel,
    island_index: nat,
    shard_index: nat,
    index: nat,
    stages: Seq<VulkanDistributedRunnerStageModel>,
    kind: RunnerStageKind,
    island: usize,
    shard: usize,
)
    requires
        is_shard_work(kind),
        island_index <= usize::MAX,
        shard_index <= usize::MAX,
        index <= plan.dispatches.len(),
        dispatch_stages_from(inputs, plan, island_index, shard_index, index, stages) is Ok,
    ensures
        made(
            dispatch_stages_from(inputs, plan, island_index, shard_index, index, stages)->Ok_0,
            kind,
            island,
            shard,
        ) == made(stages, kind, island, shard) + (if kind is Kernel && island == island_index
            && shard == shard_index {
            plan.dispatches.len() - index
        } else {
            0
        }),
    decreases plan.dispatches.len() - index,
{
    if index < plan.dispatches.len() {
        let device_id = plan.dispatches[0].shards[shard_index as int].device_id;
        let dispatch = plan.dispatches[index as int];
        let kernel = island_kernel(inputs, plan, shard_index, index as int)->Ok_0;
        let added = stage(
            island_index,
            shard_index,
            index,
            VulkanDistributedDeviceRequestModel::CreateDispatch { kernel },
            "failed to create distributed dispatch "@ + dispatch_name(
                dispatch,
            ) + " shard on "@ + debug_text(device_id) + ": "@,
        );
        let created = stages.push(added);
        lemma_made_push(stages, added, kind, island, shard);
        let gated = if index == 0 && gate_count(inputs, plan, device_id) > 0 {
            with_gates(inputs, island_index, shard_index, dispatch, device_id, created)
        } else {
            Ok(created)
        };
        if index == 0 && gate_count(inputs, plan, device_id) > 0 {
            lemma_gates_make_no_work(
                inputs,
                island_index,
                shard_index,
                dispatch,
                device_id,
                inputs.transaction_predicates->0[device_id],
                stage_numbers(
                    created,
                    VulkanDistributedStageProduct::Predicate,
                    island_index as usize,
                    Some(shard_index as usize),
                ).last(),
                0,
                created,
                kind,
                island,
                shard,
            );
        }
        lemma_dispatches_make_kernels(
            inputs,
            plan,
            island_index,
            shard_index,
            index + 1,
            gated->Ok_0,
            kind,
            island,
            shard,
        );
    }
}

/// What a shard of an island needs of this kind: a kernel for every dispatch, and one
/// sequence.
pub open spec fn needed(
    plan: VulkanPhysicalExecutionIslandPlanModel,
    kind: RunnerStageKind,
) -> nat {
    if kind is Kernel {
        plan.dispatches.len()
    } else {
        1
    }
}

proof fn lemma_shard_makes_work(
    inputs: VulkanDistributedRunnerInputsModel,
    plan: VulkanPhysicalExecutionIslandPlanModel,
    island_index: nat,
    shard_index: nat,
    stages: Seq<VulkanDistributedRunnerStageModel>,
    kind: RunnerStageKind,
    island: usize,
    shard: usize,
)
    requires
        is_shard_work(kind),
        island_index <= usize::MAX,
        shard_index <= usize::MAX,
        with_shard_stages(inputs, plan, island_index, shard_index, stages) is Ok,
    ensures
        made(
            with_shard_stages(inputs, plan, island_index, shard_index, stages)->Ok_0,
            kind,
            island,
            shard,
        ) == made(stages, kind, island, shard) + (if island == island_index && shard
            == shard_index {
            needed(plan, kind)
        } else {
            0
        }),
{
    let device_id = plan.dispatches[0].shards[shard_index as int].device_id;
    let opening = shard_opening(inputs, plan, island_index, shard_index);
    let opened = stages + opening;
    lemma_made_joined(stages, opening, kind, island, shard);
    assert(made(opening, kind, island, shard) == 0) by {
        reveal_with_fuel(made, 3);
    }
    lemma_dispatches_make_kernels(
        inputs,
        plan,
        island_index,
        shard_index,
        0,
        opened,
        kind,
        island,
        shard,
    );
    let dispatched = dispatch_stages_from(
        inputs,
        plan,
        island_index,
        shard_index,
        0,
        opened,
    )->Ok_0;
    let done = with_shard_stages(inputs, plan, island_index, shard_index, stages)->Ok_0;
    let recorded = done.last();
    let prepared = done.drop_last().last();
    let sequenced = done.drop_last().drop_last();
    assert(sequenced =~= dispatched.push(sequenced.last()));
    assert(done.drop_last() =~= sequenced.push(prepared));
    assert(done =~= sequenced.push(prepared).push(recorded));
    lemma_made_push(dispatched, sequenced.last(), kind, island, shard);
    lemma_made_push(sequenced, prepared, kind, island, shard);
    lemma_made_push(sequenced.push(prepared), recorded, kind, island, shard);
}

proof fn lemma_shards_make_work(
    inputs: VulkanDistributedRunnerInputsModel,
    plan: VulkanPhysicalExecutionIslandPlanModel,
    island_index: nat,
    index: nat,
    stages: Seq<VulkanDistributedRunnerStageModel>,
    count: usize,
    kind: RunnerStageKind,
    island: usize,
    shard: usize,
)
    requires
        is_shard_work(kind),
        island_index <= usize::MAX,
        plan.dispatches[0].shards.len() <= usize::MAX,
        index <= plan.dispatches[0].shards.len(),
        shard_stages_from(inputs, plan, island_index, index, stages, count) is Ok,
    ensures
        made(
            shard_stages_from(inputs, plan, island_index, index, stages, count)->Ok_0.0,
            kind,
            island,
            shard,
        ) == made(stages, kind, island, shard) + (if island == island_index && index <= shard
            < plan.dispatches[0].shards.len() {
            needed(plan, kind)
        } else {
            0
        }),
    decreases plan.dispatches[0].shards.len() - index,
{
    if index < plan.dispatches[0].shards.len() {
        let next = with_shard_stages(inputs, plan, island_index, index, stages)->Ok_0;
        lemma_shard_makes_work(inputs, plan, island_index, index, stages, kind, island, shard);
        lemma_shards_make_work(
            inputs,
            plan,
            island_index,
            index + 1,
            next,
            (count + plan.dispatches.len()) as usize,
            kind,
            island,
            shard,
        );
    }
}

proof fn lemma_helpers_make_no_work(
    plan: VulkanPhysicalExecutionIslandPlanModel,
    island_index: nat,
    count: nat,
    kind: RunnerStageKind,
    island: usize,
    shard: usize,
)
    requires
        is_shard_work(kind),
    ensures
        made(all_helper_stages(plan, island_index, count), kind, island, shard) == 0,
    decreases count,
{
    if count > 0 {
        let before = (count - 1) as nat;
        lemma_helpers_make_no_work(plan, island_index, before, kind, island, shard);
        let added = helper_stages(plan, island_index, before);
        lemma_made_joined(
            all_helper_stages(plan, island_index, before),
            added,
            kind,
            island,
            shard,
        );
        assert(made(added, kind, island, shard) == 0) by {
            reveal_with_fuel(made, 3);
        }
    }
}

proof fn lemma_island_makes_work(
    inputs: VulkanDistributedRunnerInputsModel,
    plan: VulkanPhysicalExecutionIslandPlanModel,
    island_index: nat,
    stages: Seq<VulkanDistributedRunnerStageModel>,
    count: usize,
    kind: RunnerStageKind,
    island: usize,
    shard: usize,
)
    requires
        is_shard_work(kind),
        island_index <= usize::MAX,
        plan.dispatches[0].shards.len() <= usize::MAX,
        with_island_stages(inputs, plan, island_index, stages, count) is Ok,
    ensures
        made(
            with_island_stages(inputs, plan, island_index, stages, count)->Ok_0.0,
            kind,
            island,
            shard,
        ) == made(stages, kind, island, shard) + (if island == island_index && shard
            < plan.dispatches[0].shards.len() {
            needed(plan, kind)
        } else {
            0
        }),
{
    let first = stage(
        island_index,
        0,
        0,
        VulkanDistributedDeviceRequestModel::ResolveDevice {
            device_id: plan.owner_device_id,
        },
        "failed to resolve distributed owner device "@ + debug_text(
            plan.owner_device_id,
        ) + ": "@,
    );
    let opened = stages.push(first);
    lemma_made_push(stages, first, kind, island, shard);
    lemma_shards_make_work(inputs, plan, island_index, 0, opened, count, kind, island, shard);
    let sharded = shard_stages_from(inputs, plan, island_index, 0, opened, count)->Ok_0.0;
    let helpers = all_helper_stages(plan, island_index, plan.dispatches[0].shards.len());
    lemma_helpers_make_no_work(
        plan,
        island_index,
        plan.dispatches[0].shards.len(),
        kind,
        island,
        shard,
    );
    lemma_made_joined(sharded, helpers, kind, island, shard);
    let coordinated = with_coordinator(inputs, plan, island_index, sharded + helpers)->Ok_0;
    if coordinated.len() > (sharded + helpers).len() {
        assert(coordinated.drop_last() =~= sharded + helpers);
    }
}

proof fn lemma_islands_make_work(
    inputs: VulkanDistributedRunnerInputsModel,
    islands: Seq<VulkanPhysicalExecutionIslandPlanModel>,
    index: nat,
    stages: Seq<VulkanDistributedRunnerStageModel>,
    count: usize,
    kind: RunnerStageKind,
    island: usize,
    shard: usize,
)
    requires
        is_shard_work(kind),
        islands.len() <= usize::MAX,
        forall|i: int|
            0 <= i < islands.len() ==> (#[trigger] islands[i]).dispatches[0].shards.len()
                <= usize::MAX,
        index <= islands.len(),
        island < islands.len(),
        shard < islands[island as int].dispatches[0].shards.len(),
        island_stages_from(inputs, islands, index, stages, count) is Ok,
    ensures
        made(
            island_stages_from(inputs, islands, index, stages, count)->Ok_0.0,
            kind,
            island,
            shard,
        ) == made(stages, kind, island, shard) + (if index <= island {
            needed(islands[island as int], kind)
        } else {
            0
        }),
    decreases islands.len() - index,
{
    if index < islands.len() {
        let plan = islands[index as int];
        let next = with_island_stages(inputs, plan, index, stages, count)->Ok_0;
        lemma_island_makes_work(inputs, plan, index, stages, count, kind, island, shard);
        lemma_islands_make_work(
            inputs,
            islands,
            index + 1,
            next.0,
            next.1,
            kind,
            island,
            shard,
        );
    }
}

/// Every shard of every island of a plan is asked for one kernel for every dispatch of
/// the island, and for one sequence.
pub proof fn law_every_shard_is_given_its_work(
    inputs: VulkanDistributedRunnerInputsModel,
    plan: VulkanDistributedExecutionPlanModel,
    island: usize,
    shard: usize,
)
    requires
        creation_stages(inputs, plan) is Ok,
        plan.execution_islands.len() <= usize::MAX,
        forall|i: int|
            0 <= i < plan.execution_islands.len() ==> (
            #[trigger] plan.execution_islands[i]).dispatches[0].shards.len() <= usize::MAX,
        island < plan.execution_islands.len(),
        shard < plan.execution_islands[island as int].dispatches[0].shards.len(),
    ensures
        made(
            creation_stages(inputs, plan)->Ok_0.0,
            RunnerStageKind::Kernel,
            island,
            shard,
        ) == plan.execution_islands[island as int].dispatches.len(),
        made(creation_stages(inputs, plan)->Ok_0.0, RunnerStageKind::Sequence, island, shard) == 1,
{
    let islands = plan.execution_islands;
    lemma_islands_make_work(
        inputs,
        islands,
        0,
        Seq::empty(),
        0,
        RunnerStageKind::Kernel,
        island,
        shard,
    );
    lemma_islands_make_work(
        inputs,
        islands,
        0,
        Seq::empty(),
        0,
        RunnerStageKind::Sequence,
        island,
        shard,
    );
}

proof fn lemma_handles_given<
    D,
    P: Fn(D, usize, VulkanDistributedStagePlace, &VulkanDistributedDeviceRequest) -> (
        D,
        Result<u64, String>,
    ),
    Y: Fn(D, usize, &String, &String, &String) -> (
        D,
        Result<VulkanDistributedQueueSynchronization, String>,
    ),
>(
    perform: P,
    synchronize: Y,
    stages: Seq<VulkanDistributedRunnerStageModel>,
    objects: Seq<VulkanDistributedDeviceObject>,
    from: D,
    to: D,
    kind: RunnerStageKind,
    island: usize,
    shard: usize,
)
    requires
        stages_gave(perform, synchronize, stages, objects, from, to),
        objects.len() <= stages.len(),
    ensures
        handles_of(stages, object_models(objects), kind, island, shard, None).len() == made(
            stages.take(objects.len() as int),
            kind,
            island,
            shard,
        ),
    decreases objects.len(),
{
    if objects.len() > 0 {
        let last = objects.len() - 1;
        let models = object_models(objects);
        let at = choose|at: D| #[trigger]
            request_gave(
                perform,
                synchronize,
                at,
                last,
                stages[last],
                to,
                Ok::<VulkanDistributedDeviceObject, String>(objects.last()),
            ) && stages_gave(perform, synchronize, stages, objects.drop_last(), from, at);
        lemma_handles_given(
            perform,
            synchronize,
            stages,
            objects.drop_last(),
            from,
            at,
            kind,
            island,
            shard,
        );
        assert(models.drop_last() =~= object_models(objects.drop_last()));
        assert(stages.take(last + 1).drop_last() =~= stages.take(last));
        assert(models[last] == objects[last].deep_view());
        if stage_kind(stages[last].request) == Some(kind) {
            assert(objects[last] is Handle);
        }
    }
}

/// Every shard of the runners of a plan has one kernel for every dispatch of its island,
/// and a sequence that a device gave for it.
pub proof fn law_runners_hold_the_work_of_every_shard<
    D,
    P: Fn(D, usize, VulkanDistributedStagePlace, &VulkanDistributedDeviceRequest) -> (
        D,
        Result<u64, String>,
    ),
    Y: Fn(D, usize, &String, &String, &String) -> (
        D,
        Result<VulkanDistributedQueueSynchronization, String>,
    ),
>(
    perform: P,
    synchronize: Y,
    inputs: VulkanDistributedRunnerInputsModel,
    plan: VulkanDistributedExecutionPlanModel,
    objects: Seq<VulkanDistributedDeviceObject>,
    from: D,
    to: D,
    island: usize,
    shard: usize,
)
    requires
        creation_stages(inputs, plan) is Ok,
        stages_gave(
            perform,
            synchronize,
            creation_stages(inputs, plan)->Ok_0.0,
            objects,
            from,
            to,
        ),
        objects.len() == creation_stages(inputs, plan)->Ok_0.0.len(),
        plan.execution_islands.len() <= usize::MAX,
        forall|i: int|
            0 <= i < plan.execution_islands.len() ==> (
            #[trigger] plan.execution_islands[i]).dispatches[0].shards.len() <= usize::MAX,
        island < plan.execution_islands.len(),
        shard < plan.execution_islands[island as int].dispatches[0].shards.len(),
    ensures
        ({
            let (stages, count) = creation_stages(inputs, plan)->Ok_0;
            let runners = assembled(stages, object_models(objects), inputs, plan, count);
            let runner = runners.dispatches[island as int].shards[shard as int];
            let sequences = handles_of(
                stages,
                object_models(objects),
                RunnerStageKind::Sequence,
                island,
                shard,
                None,
            );
            &&& runner.resident_dispatches.len()
                == plan.execution_islands[island as int].dispatches.len()
            &&& sequences.len() == 1
            &&& runner.sequence == sequences[0]
        }),
{
    let stages = creation_stages(inputs, plan)->Ok_0.0;
    law_every_shard_is_given_its_work(inputs, plan, island, shard);
    assert(stages.take(stages.len() as int) =~= stages);
    lemma_handles_given(
        perform,
        synchronize,
        stages,
        objects,
        from,
        to,
        RunnerStageKind::Kernel,
        island,
        shard,
    );
    lemma_handles_given(
        perform,
        synchronize,
        stages,
        objects,
        from,
        to,
        RunnerStageKind::Sequence,
        island,
        shard,
    );
}

/// A helper waits for the value that its owner signals, signals the value that the
/// coordinator waits for, and where there is a coordinator, it alone signals that the
/// island is complete.
pub proof fn law_coordinator_waits_for_every_helper(
    runner: VulkanDistributedDispatchRunnerModel,
    submission: VulkanDistributedDispatchSubmission,
    shard: int,
) -> (helper: int)
    requires
        submission_plan(runner, submission) is Ok,
        0 <= shard < runner.shards.len(),
        find_from(
            runner.helper_synchronization,
            0,
            is_helper(runner.shards[shard].device_id),
        ) is Some,
        coordinator(runner) is Some,
    ensures
        0 <= helper < runner.helper_synchronization.len(),
        ({
            let stages = submission_plan(runner, submission)->Ok_0;
            let semaphores = runner.helper_synchronization[helper];
            let value = submission.dependency_value;
            let at_ready = VulkanTimelineSemaphorePoint {
                semaphore: semaphores.ready_wait,
                value,
            };
            let ready = VulkanTimelineSemaphorePoint { semaphore: semaphores.ready_source, value };
            let done = VulkanTimelineSemaphorePoint { semaphore: semaphores.done_source, value };
            let at_done = VulkanTimelineSemaphorePoint { semaphore: semaphores.done_wait, value };
            let submitted = stages[runner.shards.len() + shard].request;
            let coordinated = stages.last().request;
            &&& semaphores.device_id == runner.shards[shard].device_id
            &&& submitted is Submit
            &&& submitted->Submit_device_id == runner.shards[shard].device_id
            &&& submission.consume_owner_ready_signal ==> submitted->Submit_wait_points
                == seq![at_ready]
            &&& ready_points(runner.helper_synchronization, value)[helper] == ready
            &&& submitted->Submit_signal_points == seq![done]
            &&& !submitted->Submit_signal_completion
            &&& coordinated is Submit
            &&& coordinated->Submit_device_id == runner.planned.owner_device_id
            &&& coordinated->Submit_wait_points[helper] == at_done
            &&& coordinated->Submit_signal_completion == submission.signal_completion
        }),
{
    let device_id = runner.shards[shard].device_id;
    let synchronizations = runner.helper_synchronization;
    lemma_found_at(synchronizations, 0, is_helper(device_id));
    let stages = submission_plan(runner, submission)->Ok_0;
    assert(stages[runner.shards.len() + shard] == submit_stages(runner, submission)[shard]);
    assert(submit_stages(runner, submission)[shard] == submit_stage(
        runner,
        submission,
        runner.shards[shard],
    ));
    index_from(synchronizations, 0, is_helper(device_id))->0 as int
}

} // verus!
