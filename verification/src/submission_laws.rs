//! Laws of submitting islands to their devices, of waiting for them, and of recovering from
//! missing resources.
use vstd::prelude::*;

use crate::binding_laws::lemma_found_place;
use crate::dispatch_runners::{
    done_points, leads, ready_points, reservation, VulkanDistributedDispatchRunnerModel,
    VulkanDistributedDispatchRunnersModel, VulkanDistributedDispatchShardRunnerModel,
};
use crate::execution_plans::{
    VulkanDistributedDispatchSequenceKind, VulkanDistributedDispatchSubmission,
};
use crate::errors::VulkanDistributedDispatchRunnerError;
use crate::queue_dependencies::{
    VulkanDistributedQueueSynchronizationModel, VulkanTimelineSemaphorePoint,
};
use crate::runner_execution::{
    cleanup_requests, is_helper, resolve_stages, sequence_fault_from, stages_of, submission_plan,
    submit_stages, VulkanDistributedExecutionRequestModel, VulkanDistributedExecutionStageModel,
};
use crate::runner_recovery::{own_submission, wait_stages_from, waiting_plan};
use crate::sequences::find_from;

verus! {

/// The sequence that a shard runs for a kind: its direct one, or the one for feedback.
pub open spec fn runs_sequence(
    shard: VulkanDistributedDispatchShardRunnerModel,
    kind: VulkanDistributedDispatchSequenceKind,
    sequence: u64,
) -> bool {
    if kind is Direct {
        sequence == shard.sequence
    } else {
        shard.feedback_sequence == Some(sequence)
    }
}

/// The owner of an island runs something after the shards: a reduction, or else a commit of
/// residency.
pub open spec fn is_coordinated(runner: VulkanDistributedDispatchRunnerModel) -> bool {
    runner.reduction is Some || runner.residency_commit is Some
}

/// What the owner of an island runs after the shards: the reduction where there is one.
pub open spec fn runs_after_shards(
    runner: VulkanDistributedDispatchRunnerModel,
    sequence: u64,
) -> bool {
    if runner.reduction is Some {
        runner.reduction == Some(sequence)
    } else {
        runner.residency_commit == Some(sequence)
    }
}

/// The helpers of a runner stand on different devices.
pub open spec fn helpers_are_distinct(runner: VulkanDistributedDispatchRunnerModel) -> bool {
    forall|i: int, j: int|
        #![trigger runner.helper_synchronization[i], runner.helper_synchronization[j]]
        0 <= i < j < runner.helper_synchronization.len()
            ==> runner.helper_synchronization[i].device_id
            != runner.helper_synchronization[j].device_id
}

/// No helper of a runner stands on a device.
pub open spec fn has_no_helper(
    runner: VulkanDistributedDispatchRunnerModel,
    device_id: Seq<char>,
) -> bool {
    forall|k: int|
        0 <= k < runner.helper_synchronization.len() ==> (
        #[trigger] runner.helper_synchronization[k]).device_id != device_id
}

/// A point of a semaphore.
pub open spec fn point(
    semaphore: crate::queue_dependencies::VulkanTimelineSemaphore,
    value: u64,
) -> VulkanTimelineSemaphorePoint {
    VulkanTimelineSemaphorePoint { semaphore, value }
}

proof fn lemma_sequences_found(
    shards: Seq<VulkanDistributedDispatchShardRunnerModel>,
    kind: VulkanDistributedDispatchSequenceKind,
    index: nat,
)
    requires
        sequence_fault_from(shards, kind, index) is None,
    ensures
        forall|i: int|
            index <= i < shards.len() ==> crate::runner_execution::shard_sequence(
                #[trigger] shards[i],
                kind,
            ) is Ok,
    decreases shards.len() - index,
{
    if index < shards.len() {
        lemma_sequences_found(shards, kind, index + 1);
    }
}

/// Submitting an island finds the device of every shard before it submits anything, submits
/// every shard once in their order, and then what the owner runs after them, if anything.
pub proof fn law_submissions_find_then_submit(
    runner: VulkanDistributedDispatchRunnerModel,
    submission: VulkanDistributedDispatchSubmission,
)
    requires
        submission_plan(runner, submission) is Ok,
    ensures
        ({
            let stages = submission_plan(runner, submission)->Ok_0;
            let count = runner.shards.len() as int;
            &&& stages.len() == 2 * count + if is_coordinated(runner) {
                2int
            } else {
                0
            }
            &&& forall|i: int|
                0 <= i < count ==> (#[trigger] stages[i]).request == (
                VulkanDistributedExecutionRequestModel::ResolveDevice {
                    device_id: runner.shards[i].device_id,
                })
            &&& forall|i: int|
                0 <= i < count ==> {
                    let request = (#[trigger] stages[count + i]).request;
                    &&& request is Submit
                    &&& request->Submit_device_id == runner.shards[i].device_id
                    &&& runs_sequence(
                        runner.shards[i],
                        submission.sequence_kind,
                        request->Submit_sequence,
                    )
                }
            &&& is_coordinated(runner) ==> {
                let request = stages[2 * count + 1].request;
                &&& stages[2 * count].request == (
                VulkanDistributedExecutionRequestModel::ResolveDevice {
                    device_id: runner.planned.owner_device_id,
                })
                &&& request is Submit
                &&& request->Submit_device_id == runner.planned.owner_device_id
                &&& runs_after_shards(runner, request->Submit_sequence)
            }
        }),
{
    lemma_sequences_found(runner.shards, submission.sequence_kind, 0);
    let stages = submission_plan(runner, submission)->Ok_0;
    let count = runner.shards.len() as int;
    assert forall|i: int| 0 <= i < count implies {
        let request = (#[trigger] stages[count + i]).request;
        &&& request is Submit
        &&& request->Submit_device_id == runner.shards[i].device_id
        &&& runs_sequence(runner.shards[i], submission.sequence_kind, request->Submit_sequence)
    } by {
        assert(stages[count + i] == submit_stages(runner, submission)[i]);
        assert(crate::runner_execution::shard_sequence(
            runner.shards[i],
            submission.sequence_kind,
        ) is Ok);
    }
    assert forall|i: int| 0 <= i < count implies (#[trigger] stages[i]).request == (
    VulkanDistributedExecutionRequestModel::ResolveDevice {
        device_id: runner.shards[i].device_id,
    }) by {
        assert(stages[i] == resolve_stages(runner)[i]);
    }
}

/// The shard on the device of a helper waits for the value that its owner signals exactly
/// where the submission consumes it, and signals that it is done exactly where the owner goes
/// on behind it or something runs after the shards. What it waits for and signals are the
/// other ends of what the owner signals and waits for, at the value of the submission.
pub proof fn law_helpers_meet_their_owner(
    runner: VulkanDistributedDispatchRunnerModel,
    submission: VulkanDistributedDispatchSubmission,
    shard: int,
    helper: int,
)
    requires
        submission_plan(runner, submission) is Ok,
        helpers_are_distinct(runner),
        0 <= shard < runner.shards.len(),
        0 <= helper < runner.helper_synchronization.len(),
        runner.helper_synchronization[helper].device_id == runner.shards[shard].device_id,
    ensures
        ({
            let stages = submission_plan(runner, submission)->Ok_0;
            let request = stages[runner.shards.len() + shard].request;
            let semaphores = runner.helper_synchronization[helper];
            let value = submission.dependency_value;
            &&& request is Submit
            &&& submission.consume_owner_ready_signal ==> request->Submit_wait_points == seq![
                point(semaphores.ready_wait, value),
            ]
            &&& !submission.consume_owner_ready_signal ==> request->Submit_wait_points.len() == 0
            &&& submission.prepare_owner_continuation || is_coordinated(runner)
                ==> request->Submit_signal_points == seq![point(semaphores.done_source, value)]
            &&& !submission.prepare_owner_continuation && !is_coordinated(runner)
                ==> request->Submit_signal_points.len() == 0
            &&& ready_points(runner.helper_synchronization, value).len()
                == runner.helper_synchronization.len()
            &&& ready_points(runner.helper_synchronization, value)[helper] == point(
                semaphores.ready_source,
                value,
            )
            &&& done_points(runner.helper_synchronization, value).len()
                == runner.helper_synchronization.len()
            &&& done_points(runner.helper_synchronization, value)[helper] == point(
                semaphores.done_wait,
                value,
            )
        }),
{
    let device_id = runner.shards[shard].device_id;
    let stages = submission_plan(runner, submission)->Ok_0;
    assert(stages[runner.shards.len() + shard] == submit_stages(runner, submission)[shard]);
    lemma_helper_found(runner.helper_synchronization, 0, device_id, helper);
    let place = lemma_found_place(runner.helper_synchronization, 0, is_helper(device_id));
    if place < helper {
        assert(runner.helper_synchronization[place].device_id
            != runner.helper_synchronization[helper].device_id);
    }
    assert(place == helper);
}

proof fn lemma_helper_found(
    helpers: Seq<VulkanDistributedQueueSynchronizationModel>,
    start: nat,
    device_id: Seq<char>,
    helper: int,
)
    requires
        start <= helper < helpers.len(),
        helpers[helper].device_id == device_id,
    ensures
        find_from(helpers, start, is_helper(device_id)) is Some,
        forall|place: int|
            start <= place < helpers.len() && is_helper(device_id)(helpers[place]) && (forall|
                i: int,
            |
                start <= i < place ==> !is_helper(device_id)(#[trigger] helpers[i])) ==> place
                <= helper,
    decreases helpers.len() - start,
{
    assert(is_helper(device_id)(helpers[helper]));
    if !is_helper(device_id)(helpers[start as int]) {
        lemma_helper_found(helpers, start + 1, device_id, helper);
    }
}

/// A shard on a device without a helper neither waits nor signals: it is the owner's own.
pub proof fn law_owners_meet_nobody(
    runner: VulkanDistributedDispatchRunnerModel,
    submission: VulkanDistributedDispatchSubmission,
    shard: int,
)
    requires
        submission_plan(runner, submission) is Ok,
        0 <= shard < runner.shards.len(),
        has_no_helper(runner, runner.shards[shard].device_id),
    ensures
        ({
            let stages = submission_plan(runner, submission)->Ok_0;
            let request = stages[runner.shards.len() + shard].request;
            &&& request is Submit
            &&& request->Submit_wait_points.len() == 0
            &&& request->Submit_signal_points.len() == 0
        }),
{
    let device_id = runner.shards[shard].device_id;
    let stages = submission_plan(runner, submission)->Ok_0;
    assert(stages[runner.shards.len() + shard] == submit_stages(runner, submission)[shard]);
    if find_from(runner.helper_synchronization, 0, is_helper(device_id)) is Some {
        let place = lemma_found_place(runner.helper_synchronization, 0, is_helper(device_id));
        assert(runner.helper_synchronization[place].device_id == device_id);
    }
}

/// What is submitted last signals that the island is complete, where that is asked for: every
/// shard where nothing runs after them, and otherwise only what runs after them, which waits
/// for every helper and signals nobody else.
pub proof fn law_completion_is_signalled_once_all_is_done(
    runner: VulkanDistributedDispatchRunnerModel,
    submission: VulkanDistributedDispatchSubmission,
)
    requires
        submission_plan(runner, submission) is Ok,
    ensures
        ({
            let stages = submission_plan(runner, submission)->Ok_0;
            let count = runner.shards.len() as int;
            let last = stages[2 * count + 1].request;
            &&& forall|i: int|
                0 <= i < count ==> (
                #[trigger] stages[count + i]).request->Submit_signal_completion == (
                submission.signal_completion && !is_coordinated(runner))
            &&& is_coordinated(runner) ==> {
                &&& last->Submit_signal_completion == submission.signal_completion
                &&& last->Submit_signal_points.len() == 0
                &&& last->Submit_wait_points.len() == runner.helper_synchronization.len()
                &&& forall|k: int|
                    0 <= k < runner.helper_synchronization.len() ==> (
                    #[trigger] last->Submit_wait_points[k]) == point(
                        runner.helper_synchronization[k].done_wait,
                        submission.dependency_value,
                    )
            }
        }),
{
    let stages = submission_plan(runner, submission)->Ok_0;
    let count = runner.shards.len() as int;
    assert forall|i: int| 0 <= i < count implies (
    #[trigger] stages[count + i]).request->Submit_signal_completion == (
    submission.signal_completion && !is_coordinated(runner)) by {
        assert(stages[count + i] == submit_stages(runner, submission)[i]);
    }
}

/// A submission whose feedback sequences are not all recorded finds the devices and submits
/// nothing.
pub proof fn law_unrecorded_submissions_submit_nothing(
    runner: VulkanDistributedDispatchRunnerModel,
    submission: VulkanDistributedDispatchSubmission,
)
    ensures
        submission_plan(runner, submission) is Err <==> submission.sequence_kind
            is FeedbackIndirect && exists|i: int|
            0 <= i < runner.shards.len() && (
            #[trigger] runner.shards[i]).feedback_sequence is None,
        submission_plan(runner, submission) is Err ==> forall|i: int|
            0 <= i < stages_of(submission_plan(runner, submission)).len() ==> (
            #[trigger] stages_of(submission_plan(runner, submission))[i]).request is ResolveDevice,
{
    lemma_sequences_missing(runner.shards, submission.sequence_kind, 0);
    if submission_plan(runner, submission) is Err {
        let stages = stages_of(submission_plan(runner, submission));
        assert forall|i: int| 0 <= i < stages.len() implies (
        #[trigger] stages[i]).request is ResolveDevice by {
            assert(stages[i] == resolve_stages(runner)[i]);
        }
    }
}

proof fn lemma_sequences_missing(
    shards: Seq<VulkanDistributedDispatchShardRunnerModel>,
    kind: VulkanDistributedDispatchSequenceKind,
    index: nat,
)
    ensures
        sequence_fault_from(shards, kind, index) is Some <==> kind is FeedbackIndirect && exists|
            i: int,
        |
            index <= i < shards.len() && (#[trigger] shards[i]).feedback_sequence is None,
    decreases shards.len() - index,
{
    if index < shards.len() {
        lemma_sequences_missing(shards, kind, index + 1);
        if kind is FeedbackIndirect && shards[index as int].feedback_sequence is None {
            assert(shards[index as int].feedback_sequence is None);
        }
        if sequence_fault_from(shards, kind, index + 1) is Some {
            let i = choose|i: int|
                index + 1 <= i < shards.len() && (
                #[trigger] shards[i]).feedback_sequence is None;
            assert(shards[i].feedback_sequence is None);
        }
    }
}

/// After a failed submission exactly the earlier submissions are waited for, each on its
/// device and for its sequence, in their order.
pub proof fn law_failed_submissions_wait_for_the_earlier_ones(
    stages: Seq<VulkanDistributedExecutionStageModel>,
)
    ensures
        forall|k: int|
            0 <= k < cleanup_requests(stages).len() ==> is_wait_for_some_submission(
                stages,
                #[trigger] cleanup_requests(stages)[k],
            ),
        forall|i: int|
            0 <= i < stages.len() && (#[trigger] stages[i]).request is Submit
                ==> cleanup_requests(stages).contains(
                VulkanDistributedExecutionRequestModel::Wait {
                    device_id: stages[i].request->Submit_device_id,
                    sequence: stages[i].request->Submit_sequence,
                },
            ),
    decreases stages.len(),
{
    if stages.len() > 0 {
        let rest = stages.drop_last();
        law_failed_submissions_wait_for_the_earlier_ones(rest);
        let before = cleanup_requests(rest);
        let after = cleanup_requests(stages);
        assert forall|k: int| 0 <= k < after.len() implies is_wait_for_some_submission(
            stages,
            #[trigger] after[k],
        ) by {
            if k < before.len() {
                assert(after[k] == before[k]);
                assert(is_wait_for_some_submission(rest, before[k]));
                let i = choose|i: int|
                    0 <= i < rest.len() && (#[trigger] rest[i]).request is Submit && before[k] == (
                    VulkanDistributedExecutionRequestModel::Wait {
                        device_id: rest[i].request->Submit_device_id,
                        sequence: rest[i].request->Submit_sequence,
                    });
                assert(stages[i] == rest[i]);
            } else {
                assert(stages[stages.len() - 1].request is Submit);
            }
        }
        assert forall|i: int|
            0 <= i < stages.len() && (#[trigger] stages[i]).request is Submit implies
            after.contains(
            VulkanDistributedExecutionRequestModel::Wait {
                device_id: stages[i].request->Submit_device_id,
                sequence: stages[i].request->Submit_sequence,
            },
        ) by {
            let wait = VulkanDistributedExecutionRequestModel::Wait {
                device_id: stages[i].request->Submit_device_id,
                sequence: stages[i].request->Submit_sequence,
            };
            if i < rest.len() {
                assert(rest[i] == stages[i]);
                assert(before.contains(wait));
                let k = choose|k: int| 0 <= k < before.len() && before[k] == wait;
                assert(after[k] == wait);
            } else {
                assert(after[after.len() - 1] == wait);
            }
        }
    }
}

/// The request waits for what some stage submits.
pub open spec fn is_wait_for_some_submission(
    stages: Seq<VulkanDistributedExecutionStageModel>,
    request: VulkanDistributedExecutionRequestModel,
) -> bool {
    exists|i: int|
        0 <= i < stages.len() && (#[trigger] stages[i]).request is Submit && request == (
        VulkanDistributedExecutionRequestModel::Wait {
            device_id: stages[i].request->Submit_device_id,
            sequence: stages[i].request->Submit_sequence,
        })
}

proof fn lemma_waits_listed(
    runner: VulkanDistributedDispatchRunnerModel,
    kind: VulkanDistributedDispatchSequenceKind,
    index: nat,
    stages: Seq<VulkanDistributedExecutionStageModel>,
)
    requires
        index <= runner.shards.len(),
        wait_stages_from(runner, kind, index, stages) is Ok,
    ensures
        ({
            let all = wait_stages_from(runner, kind, index, stages)->Ok_0;
            &&& all.len() == stages.len() + (runner.shards.len() - index)
            &&& forall|i: int| 0 <= i < stages.len() ==> #[trigger] all[i] == stages[i]
            &&& forall|i: int|
                index <= i < runner.shards.len() ==> waits_for_shard(
                    #[trigger] runner.shards[i],
                    kind,
                    all[stages.len() + (i - index)].request,
                )
        }),
    decreases runner.shards.len() - index,
{
    if index < runner.shards.len() {
        let sequence = crate::runner_execution::shard_sequence(
            runner.shards[index as int],
            kind,
        )->Ok_0;
        let grown = stages.push(
            crate::runner_recovery::wait_stage(runner, runner.shards[index as int], sequence),
        );
        lemma_waits_listed(runner, kind, index + 1, grown);
        let all = wait_stages_from(runner, kind, index + 1, grown)->Ok_0;
        assert forall|i: int| 0 <= i < stages.len() implies #[trigger] all[i] == stages[i] by {
            assert(all[i] == grown[i]);
        }
        assert(all[stages.len() as int] == grown[stages.len() as int]);
    }
}

/// The request waits for what a shard runs.
pub open spec fn waits_for_shard(
    shard: VulkanDistributedDispatchShardRunnerModel,
    kind: VulkanDistributedDispatchSequenceKind,
    request: VulkanDistributedExecutionRequestModel,
) -> bool {
    &&& request is Wait
    &&& request->Wait_device_id == shard.device_id
    &&& runs_sequence(shard, kind, request->Wait_sequence)
}

/// Waiting for an island finds every device, waits for what every shard runs, and then for
/// what the owner runs after them, if anything.
pub proof fn law_waiting_waits_for_all_that_runs(
    runner: VulkanDistributedDispatchRunnerModel,
    kind: VulkanDistributedDispatchSequenceKind,
)
    requires
        waiting_plan(runner, kind) is Ok,
    ensures
        ({
            let stages = waiting_plan(runner, kind)->Ok_0;
            let count = runner.shards.len() as int;
            &&& stages.len() == 2 * count + if is_coordinated(runner) {
                2int
            } else {
                0
            }
            &&& forall|i: int|
                0 <= i < count ==> (#[trigger] stages[i]).request == (
                VulkanDistributedExecutionRequestModel::ResolveDevice {
                    device_id: runner.shards[i].device_id,
                })
            &&& forall|i: int|
                0 <= i < count ==> waits_for_shard(
                    #[trigger] runner.shards[i],
                    kind,
                    stages[count + i].request,
                )
            &&& is_coordinated(runner) ==> {
                let request = stages[2 * count + 1].request;
                &&& stages[2 * count].request == (
                VulkanDistributedExecutionRequestModel::ResolveDevice {
                    device_id: runner.planned.owner_device_id,
                })
                &&& request is Wait
                &&& request->Wait_device_id == runner.planned.owner_device_id
                &&& runs_after_shards(runner, request->Wait_sequence)
            }
        }),
{
    let resolves = resolve_stages(runner);
    lemma_waits_listed(runner, kind, 0, resolves);
    let stages = waiting_plan(runner, kind)->Ok_0;
    let waits = wait_stages_from(runner, kind, 0, resolves)->Ok_0;
    let count = runner.shards.len() as int;
    assert forall|i: int| 0 <= i < count implies (#[trigger] stages[i]).request == (
    VulkanDistributedExecutionRequestModel::ResolveDevice {
        device_id: runner.shards[i].device_id,
    }) by {
        assert(stages[i] == waits[i]);
        assert(waits[i] == resolves[i]);
    }
    assert forall|i: int| 0 <= i < count implies waits_for_shard(
        #[trigger] runner.shards[i],
        kind,
        stages[count + i].request,
    ) by {
        assert(stages[count + i] == waits[count + i]);
    }
}

/// A run of an island on its own consumes no signal of its owner, lets the owner go on behind
/// it, signals its completion, and runs the direct sequences at the value that was given out.
pub proof fn law_own_runs_are_whole(value: u64)
    ensures
        own_submission(value).dependency_value == value,
        !own_submission(value).consume_owner_ready_signal,
        own_submission(value).prepare_owner_continuation,
        own_submission(value).signal_completion,
        own_submission(value).sequence_kind is Direct,
{
}

/// Giving out a value to an island gives a value that no island was given before, and
/// changes nothing else: the clock of the island goes on by one, and every other runner, and
/// everything else of this one, stays.
pub proof fn law_values_are_given_out_once(
    before: VulkanDistributedDispatchRunnersModel,
    owner_device_id: Seq<char>,
    dispatch_index: usize,
    after: VulkanDistributedDispatchRunnersModel,
    value: u64,
)
    requires
        reservation(
            before,
            owner_device_id,
            dispatch_index,
            after,
            Ok::<u64, VulkanDistributedDispatchRunnerError>(value),
        ),
    ensures
        after.dispatches.len() == before.dispatches.len(),
        exists|k: int|
            0 <= k < before.dispatches.len() && advances_only(before, after, k) && (
            #[trigger] before.dispatches[k]).planned.owner_device_id == owner_device_id
                && before.dispatches[k].planned.dispatches[0].dispatch_index == dispatch_index
                && before.dispatches[k].dependency_clock == value
                && after.dispatches[k].dependency_clock == value + 1,
{
    let condition = leads(owner_device_id, dispatch_index);
    crate::dispatch_runners::lemma_found_at(before.dispatches, 0, condition);
    let k = crate::sequences::index_from(before.dispatches, 0, condition)->0 as int;
    assert(advances_only(before, after, k));
    assert(before.dispatches[k].dependency_clock == value);
}

/// Only the clock of the runner at a place goes on.
pub open spec fn advances_only(
    before: VulkanDistributedDispatchRunnersModel,
    after: VulkanDistributedDispatchRunnersModel,
    place: int,
) -> bool {
    &&& after.dispatch_count == before.dispatch_count
    &&& after.shard_count == before.shard_count
    &&& after.transaction_predicates == before.transaction_predicates
    &&& after.dispatches[place].planned == before.dispatches[place].planned
    &&& after.dispatches[place].shards == before.dispatches[place].shards
    &&& after.dispatches[place].helper_synchronization
        == before.dispatches[place].helper_synchronization
    &&& after.dispatches[place].reduction == before.dispatches[place].reduction
    &&& after.dispatches[place].residency_commit == before.dispatches[place].residency_commit
    &&& forall|i: int|
        0 <= i < before.dispatches.len() && i != place ==> #[trigger] after.dispatches[i]
            == before.dispatches[i]
}

} // verus!
