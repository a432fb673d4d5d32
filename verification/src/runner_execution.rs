//! Submitting islands and waiting for them.
use vstd::prelude::*;

use crate::dispatch_runners::{
    done_points, leads, list_done_points, missing_dispatch, missing_dispatch_text,
    runners_are_sound, VulkanDistributedDispatchRunner, VulkanDistributedDispatchRunnerModel,
    VulkanDistributedDispatchRunners, VulkanDistributedDispatchRunnersModel,
    VulkanDistributedDispatchShardRunner, VulkanDistributedDispatchShardRunnerModel,
};
use crate::errors::VulkanDistributedDispatchRunnerError;
use crate::execution_plans::{
    VulkanDistributedDispatchSequenceKind, VulkanDistributedDispatchSubmission,
};
use crate::queue_dependencies::{
    VulkanDistributedQueueSynchronization, VulkanDistributedQueueSynchronizationModel,
    VulkanTimelineSemaphorePoint,
};
use crate::resident::VulkanResidentBuffer;
use crate::runner_bindings::{runner_agrees, runner_fault};
use crate::sequences::{append, find_from};
use crate::text::{debug_text, join2, join3, join7, quoted};
use crate::values::PlainValue;

verus! {

/// A run of an island.
#[derive(Debug, PartialEq, Eq)]
pub struct VulkanDistributedDispatchRun {
    pub owner_device_id: String,
    pub dispatch_index: usize,
    pub component_id: String,
    pub node_id: String,
    pub shard_count: usize,
    pub sequence_kind: VulkanDistributedDispatchSequenceKind,
}

/// The model of [`VulkanDistributedDispatchRun`].
pub struct VulkanDistributedDispatchRunModel {
    pub owner_device_id: Seq<char>,
    pub dispatch_index: usize,
    pub component_id: Seq<char>,
    pub node_id: Seq<char>,
    pub shard_count: usize,
    pub sequence_kind: VulkanDistributedDispatchSequenceKind,
}

impl DeepView for VulkanDistributedDispatchRun {
    type V = VulkanDistributedDispatchRunModel;

    open spec fn deep_view(&self) -> VulkanDistributedDispatchRunModel {
        VulkanDistributedDispatchRunModel {
            owner_device_id: self.owner_device_id.deep_view(),
            dispatch_index: self.dispatch_index.deep_view(),
            component_id: self.component_id.deep_view(),
            node_id: self.node_id.deep_view(),
            shard_count: self.shard_count.deep_view(),
            sequence_kind: self.sequence_kind.deep_view(),
        }
    }
}

impl Clone for VulkanDistributedDispatchRun {
    fn clone(&self) -> (copy: Self)
        ensures
            copy.deep_view() == self.deep_view(),
    {
        self.duplicate()
    }
}

impl PlainValue for VulkanDistributedDispatchRun {
    fn duplicate(&self) -> (copy: Self) {
        VulkanDistributedDispatchRun {
            owner_device_id: self.owner_device_id.duplicate(),
            dispatch_index: self.dispatch_index.duplicate(),
            component_id: self.component_id.duplicate(),
            node_id: self.node_id.duplicate(),
            shard_count: self.shard_count.duplicate(),
            sequence_kind: self.sequence_kind.duplicate(),
        }
    }

    fn same(&self, other: &Self) -> (equal: bool) {
        self.owner_device_id.same(&other.owner_device_id)
            && self.dispatch_index.same(&other.dispatch_index)
            && self.component_id.same(&other.component_id)
            && self.node_id.same(&other.node_id)
            && self.shard_count.same(&other.shard_count)
            && self.sequence_kind.same(&other.sequence_kind)
    }
}

/// What devices are asked for while islands run.
#[derive(Debug, PartialEq, Eq)]
pub enum VulkanDistributedExecutionRequest {
    ResolveDevice { device_id: String },
    Submit {
        device_id: String,
        sequence: u64,
        wait_points: Vec<VulkanTimelineSemaphorePoint>,
        signal_points: Vec<VulkanTimelineSemaphorePoint>,
        signal_completion: bool,
    },
    Wait { device_id: String, sequence: u64 },
    Run { device_id: String, sequence: u64 },
    RestorePredicate { buffer: VulkanResidentBuffer, value: u32 },
    CompareEpochs { device_id: String, gate: u64 },
}

/// The model of [`VulkanDistributedExecutionRequest`].
pub enum VulkanDistributedExecutionRequestModel {
    ResolveDevice { device_id: Seq<char> },
    Submit {
        device_id: Seq<char>,
        sequence: u64,
        wait_points: Seq<VulkanTimelineSemaphorePoint>,
        signal_points: Seq<VulkanTimelineSemaphorePoint>,
        signal_completion: bool,
    },
    Wait { device_id: Seq<char>, sequence: u64 },
    Run { device_id: Seq<char>, sequence: u64 },
    RestorePredicate { buffer: VulkanResidentBuffer, value: u32 },
    CompareEpochs { device_id: Seq<char>, gate: u64 },
}

impl DeepView for VulkanDistributedExecutionRequest {
    type V = VulkanDistributedExecutionRequestModel;

    open spec fn deep_view(&self) -> VulkanDistributedExecutionRequestModel {
        match self {
            VulkanDistributedExecutionRequest::ResolveDevice { device_id } =>
                VulkanDistributedExecutionRequestModel::ResolveDevice {
                    device_id: device_id.deep_view(),
                },
            VulkanDistributedExecutionRequest::Submit {
                device_id,
                sequence,
                wait_points,
                signal_points,
                signal_completion,
            } => VulkanDistributedExecutionRequestModel::Submit {
                device_id: device_id.deep_view(),
                sequence: sequence.deep_view(),
                wait_points: wait_points.deep_view(),
                signal_points: signal_points.deep_view(),
                signal_completion: signal_completion.deep_view(),
            },
            VulkanDistributedExecutionRequest::Wait { device_id, sequence } =>
                VulkanDistributedExecutionRequestModel::Wait {
                    device_id: device_id.deep_view(),
                    sequence: sequence.deep_view(),
                },
            VulkanDistributedExecutionRequest::Run { device_id, sequence } =>
                VulkanDistributedExecutionRequestModel::Run {
                    device_id: device_id.deep_view(),
                    sequence: sequence.deep_view(),
                },
            VulkanDistributedExecutionRequest::RestorePredicate { buffer, value } =>
                VulkanDistributedExecutionRequestModel::RestorePredicate {
                    buffer: buffer.deep_view(),
                    value: value.deep_view(),
                },
            VulkanDistributedExecutionRequest::CompareEpochs { device_id, gate } =>
                VulkanDistributedExecutionRequestModel::CompareEpochs {
                    device_id: device_id.deep_view(),
                    gate: gate.deep_view(),
                },
        }
    }
}

impl Clone for VulkanDistributedExecutionRequest {
    fn clone(&self) -> (copy: Self)
        ensures
            copy.deep_view() == self.deep_view(),
    {
        self.duplicate()
    }
}

impl PlainValue for VulkanDistributedExecutionRequest {
    fn duplicate(&self) -> (copy: Self) {
        match self {
            VulkanDistributedExecutionRequest::ResolveDevice { device_id } =>
                VulkanDistributedExecutionRequest::ResolveDevice {
                    device_id: device_id.duplicate(),
                },
            VulkanDistributedExecutionRequest::Submit {
                device_id,
                sequence,
                wait_points,
                signal_points,
                signal_completion,
            } => VulkanDistributedExecutionRequest::Submit {
                device_id: device_id.duplicate(),
                sequence: sequence.duplicate(),
                wait_points: wait_points.duplicate(),
                signal_points: signal_points.duplicate(),
                signal_completion: signal_completion.duplicate(),
            },
            VulkanDistributedExecutionRequest::Wait { device_id, sequence } =>
                VulkanDistributedExecutionRequest::Wait {
                    device_id: device_id.duplicate(),
                    sequence: sequence.duplicate(),
                },
            VulkanDistributedExecutionRequest::Run { device_id, sequence } =>
                VulkanDistributedExecutionRequest::Run {
                    device_id: device_id.duplicate(),
                    sequence: sequence.duplicate(),
                },
            VulkanDistributedExecutionRequest::RestorePredicate { buffer, value } =>
                VulkanDistributedExecutionRequest::RestorePredicate {
                    buffer: buffer.duplicate(),
                    value: value.duplicate(),
                },
            VulkanDistributedExecutionRequest::CompareEpochs { device_id, gate } =>
                VulkanDistributedExecutionRequest::CompareEpochs {
                    device_id: device_id.duplicate(),
                    gate: gate.duplicate(),
                },
        }
    }

    fn same(&self, other: &Self) -> (equal: bool) {
        match (self, other) {
            (
                VulkanDistributedExecutionRequest::ResolveDevice { device_id: left_device_id },
                VulkanDistributedExecutionRequest::ResolveDevice { device_id: right_device_id },
            ) => left_device_id.same(right_device_id),
            (
                VulkanDistributedExecutionRequest::Submit {
                    device_id: left_device_id,
                    sequence: left_sequence,
                    wait_points: left_wait_points,
                    signal_points: left_signal_points,
                    signal_completion: left_signal_completion,
                },
                VulkanDistributedExecutionRequest::Submit {
                    device_id: right_device_id,
                    sequence: right_sequence,
                    wait_points: right_wait_points,
                    signal_points: right_signal_points,
                    signal_completion: right_signal_completion,
                },
            ) =>
                left_device_id.same(right_device_id)
                    && left_sequence.same(right_sequence)
                    && left_wait_points.same(right_wait_points)
                    && left_signal_points.same(right_signal_points)
                    && left_signal_completion.same(right_signal_completion),
            (
                VulkanDistributedExecutionRequest::Wait {
                    device_id: left_device_id,
                    sequence: left_sequence,
                },
                VulkanDistributedExecutionRequest::Wait {
                    device_id: right_device_id,
                    sequence: right_sequence,
                },
            ) => left_device_id.same(right_device_id) && left_sequence.same(right_sequence),
            (
                VulkanDistributedExecutionRequest::Run {
                    device_id: left_device_id,
                    sequence: left_sequence,
                },
                VulkanDistributedExecutionRequest::Run {
                    device_id: right_device_id,
                    sequence: right_sequence,
                },
            ) => left_device_id.same(right_device_id) && left_sequence.same(right_sequence),
            (
                VulkanDistributedExecutionRequest::RestorePredicate {
                    buffer: left_buffer,
                    value: left_value,
                },
                VulkanDistributedExecutionRequest::RestorePredicate {
                    buffer: right_buffer,
                    value: right_value,
                },
            ) => left_buffer.same(right_buffer) && left_value.same(right_value),
            (
                VulkanDistributedExecutionRequest::CompareEpochs {
                    device_id: left_device_id,
                    gate: left_gate,
                },
                VulkanDistributedExecutionRequest::CompareEpochs {
                    device_id: right_device_id,
                    gate: right_gate,
                },
            ) => left_device_id.same(right_device_id) && left_gate.same(right_gate),
            _ => false,
        }
    }
}

/// A request, and what the text of the error starts with where it fails.
#[derive(Debug, PartialEq, Eq)]
pub struct VulkanDistributedExecutionStage {
    pub request: VulkanDistributedExecutionRequest,
    pub failure: String,
}

/// The model of [`VulkanDistributedExecutionStage`].
pub struct VulkanDistributedExecutionStageModel {
    pub request: VulkanDistributedExecutionRequestModel,
    pub failure: Seq<char>,
}

impl DeepView for VulkanDistributedExecutionStage {
    type V = VulkanDistributedExecutionStageModel;

    open spec fn deep_view(&self) -> VulkanDistributedExecutionStageModel {
        VulkanDistributedExecutionStageModel {
            request: self.request.deep_view(),
            failure: self.failure.deep_view(),
        }
    }
}

impl Clone for VulkanDistributedExecutionStage {
    fn clone(&self) -> (copy: Self)
        ensures
            copy.deep_view() == self.deep_view(),
    {
        self.duplicate()
    }
}

impl PlainValue for VulkanDistributedExecutionStage {
    fn duplicate(&self) -> (copy: Self) {
        VulkanDistributedExecutionStage {
            request: self.request.duplicate(),
            failure: self.failure.duplicate(),
        }
    }

    fn same(&self, other: &Self) -> (equal: bool) {
        self.request.same(&other.request)
            && self.failure.same(&other.failure)
    }
}

/// The text of an error about a shard without the sequence of a kind.
pub open spec fn missing_sequence_text(device_id: Seq<char>) -> Seq<char> {
    "distributed feedback shard on "@ + debug_text(device_id) + " has no indirect sequence"@
}

/// Chooses between the direct sequence of a shard and the one for feedback.
pub fn distributed_sequence_for_kind<'a, T>(
    direct: &'a T,
    feedback_indirect: Option<&'a T>,
    sequence_kind: VulkanDistributedDispatchSequenceKind,
    device_id: &str,
) -> (outcome: Result<&'a T, VulkanDistributedDispatchRunnerError>)
    ensures
        match (sequence_kind, feedback_indirect) {
            (VulkanDistributedDispatchSequenceKind::Direct, _) => outcome == Ok::<
                &'a T,
                VulkanDistributedDispatchRunnerError,
            >(direct),
            (VulkanDistributedDispatchSequenceKind::FeedbackIndirect, Some(sequence)) => outcome
                == Ok::<&'a T, VulkanDistributedDispatchRunnerError>(sequence),
            (VulkanDistributedDispatchSequenceKind::FeedbackIndirect, None) => outcome is Err
                && outcome->Err_0.0@ == missing_sequence_text(device_id@),
        },
{
    match sequence_kind {
        VulkanDistributedDispatchSequenceKind::Direct => Ok(direct),
        VulkanDistributedDispatchSequenceKind::FeedbackIndirect => match feedback_indirect {
            Some(sequence) => Ok(sequence),
            None => runner_fault(
                join3(
                    "distributed feedback shard on ",
                    quoted(device_id).as_str(),
                    " has no indirect sequence",
                ),
            ),
        },
    }
}

/// The sequence of a kind that a shard has, or the text of the error.
pub open spec fn shard_sequence(
    shard: VulkanDistributedDispatchShardRunnerModel,
    kind: VulkanDistributedDispatchSequenceKind,
) -> Result<u64, Seq<char>> {
    match kind {
        VulkanDistributedDispatchSequenceKind::Direct => Ok(shard.sequence),
        VulkanDistributedDispatchSequenceKind::FeedbackIndirect => match shard.feedback_sequence {
            Some(sequence) => Ok(sequence),
            None => Err(missing_sequence_text(shard.device_id)),
        },
    }
}

/// What the owner of an island runs after the shards.
pub open spec fn coordinator(runner: VulkanDistributedDispatchRunnerModel) -> Option<u64> {
    match runner.reduction {
        Some(sequence) => Some(sequence),
        None => runner.residency_commit,
    }
}

impl VulkanDistributedDispatchShardRunner {
    pub(crate) fn sequence_for_kind(
        &self,
        kind: VulkanDistributedDispatchSequenceKind,
    ) -> (outcome: Result<
        u64,
        VulkanDistributedDispatchRunnerError,
    >)
        ensures
            runner_agrees(outcome, shard_sequence(self.deep_view(), kind)),
    {
        match distributed_sequence_for_kind(
            &self.sequence,
            self.feedback_sequence.as_ref(),
            kind,
            self.device_id.as_str(),
        ) {
            Err(error) => Err(error),
            Ok(sequence) => Ok(*sequence),
        }
    }
}

impl VulkanDistributedDispatchRunner {
    /// What the owner runs after the shards.
    pub fn coordinator_sequence(&self) -> (sequence: Option<u64>)
        ensures
            sequence == coordinator(self.deep_view()),
    {
        match self.reduction {
            Some(sequence) => Some(sequence),
            None => self.residency_commit,
        }
    }
}

/// Stages, or stages and the text of the error that ends them.
pub type ExecutionStagesModel = Result<
    Seq<VulkanDistributedExecutionStageModel>,
    (Seq<VulkanDistributedExecutionStageModel>, Seq<char>),
>;

/// The stages are the expected ones, and end with the expected error.
pub open spec fn execution_stages_agree(
    outcome: Result<(), VulkanDistributedDispatchRunnerError>,
    stages: Seq<VulkanDistributedExecutionStageModel>,
    expected: ExecutionStagesModel,
) -> bool {
    match outcome {
        Ok(_) => expected == Ok::<
            Seq<VulkanDistributedExecutionStageModel>,
            (Seq<VulkanDistributedExecutionStageModel>, Seq<char>),
        >(stages),
        Err(error) => expected == Err::<
            Seq<VulkanDistributedExecutionStageModel>,
            (Seq<VulkanDistributedExecutionStageModel>, Seq<char>),
        >((stages, error.0@)),
    }
}

/// The stages of a plan, whether an error ends it or not.
pub open spec fn stages_of(plan: ExecutionStagesModel) -> Seq<
    VulkanDistributedExecutionStageModel,
> {
    match plan {
        Ok(stages) => stages,
        Err(ended) => ended.0,
    }
}

/// Finding the device of a shard.
pub open spec fn resolve_stage(shard: VulkanDistributedDispatchShardRunnerModel) ->
    VulkanDistributedExecutionStageModel {
    VulkanDistributedExecutionStageModel {
        request: VulkanDistributedExecutionRequestModel::ResolveDevice {
            device_id: shard.device_id,
        },
        failure: "failed to resolve distributed shard device "@ + debug_text(shard.device_id)
            + ": "@,
    }
}

/// Finding the devices of all shards.
pub open spec fn resolve_stages(runner: VulkanDistributedDispatchRunnerModel) -> Seq<
    VulkanDistributedExecutionStageModel,
> {
    runner.shards.map_values(
        |shard: VulkanDistributedDispatchShardRunnerModel| resolve_stage(shard),
    )
}

/// Finding the device of the owner.
pub open spec fn resolve_owner_stage(runner: VulkanDistributedDispatchRunnerModel) ->
    VulkanDistributedExecutionStageModel {
    VulkanDistributedExecutionStageModel {
        request: VulkanDistributedExecutionRequestModel::ResolveDevice {
            device_id: runner.planned.owner_device_id,
        },
        failure: "failed to resolve distributed coordinator owner "@ + debug_text(
            runner.planned.owner_device_id,
        ) + ": "@,
    }
}

pub(crate) fn list_resolve_stages(runner: &VulkanDistributedDispatchRunner) -> (stages: Vec<
    VulkanDistributedExecutionStage,
>)
    ensures
        stages.deep_view() == resolve_stages(runner.deep_view()),
{
    let ghost expected = resolve_stages(runner.deep_view());
    let mut stages: Vec<VulkanDistributedExecutionStage> = Vec::new();
    assert(stages.deep_view() =~= expected.take(0));
    for index in 0..runner.shards.len()
        invariant
            expected == resolve_stages(runner.deep_view()),
            stages.deep_view() == expected.take(index as int),
    {
        let shard = &runner.shards[index];
        assert(runner.deep_view().shards[index as int] == shard.deep_view());
        append(
            &mut stages,
            VulkanDistributedExecutionStage {
                request: VulkanDistributedExecutionRequest::ResolveDevice {
                    device_id: shard.device_id.clone(),
                },
                failure: join3(
                    "failed to resolve distributed shard device ",
                    quoted(shard.device_id.as_str()).as_str(),
                    ": ",
                ),
            },
        );
        assert(expected.take(index as int + 1) =~= expected.take(index as int).push(
            expected[index as int],
        ));
    }
    assert(expected.take(expected.len() as int) =~= expected);
    stages
}

pub(crate) fn push_resolve_owner(
    stages: &mut Vec<VulkanDistributedExecutionStage>,
    runner: &VulkanDistributedDispatchRunner,
)
    ensures
        final(stages).deep_view() == old(stages).deep_view().push(
            resolve_owner_stage(runner.deep_view()),
        ),
{
    append(
        stages,
        VulkanDistributedExecutionStage {
            request: VulkanDistributedExecutionRequest::ResolveDevice {
                device_id: runner.planned.owner_device_id.clone(),
            },
            failure: join3(
                "failed to resolve distributed coordinator owner ",
                quoted(runner.planned.owner_device_id.as_str()).as_str(),
                ": ",
            ),
        },
    );
}

/// The semaphores are those of the helper on a device.
pub open spec fn is_helper(device_id: Seq<char>) -> spec_fn(
    VulkanDistributedQueueSynchronizationModel,
) -> bool {
    |synchronization: VulkanDistributedQueueSynchronizationModel|
        synchronization.device_id == device_id
}

/// The point, where there are semaphores and the point is wanted.
pub open spec fn point_where(
    wanted: bool,
    point: Option<VulkanTimelineSemaphorePoint>,
) -> Seq<VulkanTimelineSemaphorePoint> {
    if wanted && point is Some {
        seq![point->0]
    } else {
        Seq::empty()
    }
}

/// Submitting the work of a shard.
pub open spec fn submit_stage(
    runner: VulkanDistributedDispatchRunnerModel,
    submission: VulkanDistributedDispatchSubmission,
    shard: VulkanDistributedDispatchShardRunnerModel,
) -> VulkanDistributedExecutionStageModel {
    let helper = find_from(runner.helper_synchronization, 0, is_helper(shard.device_id));
    let value = submission.dependency_value;
    let coordinated = coordinator(runner) is Some;
    VulkanDistributedExecutionStageModel {
        request: VulkanDistributedExecutionRequestModel::Submit {
            device_id: shard.device_id,
            sequence: shard_sequence(shard, submission.sequence_kind)->Ok_0,
            wait_points: match helper {
                Some(synchronization) => point_where(
                    submission.consume_owner_ready_signal,
                    Some(
                        VulkanTimelineSemaphorePoint {
                            semaphore: synchronization.ready_wait,
                            value,
                        },
                    ),
                ),
                None => Seq::empty(),
            },
            signal_points: match helper {
                Some(synchronization) => point_where(
                    submission.prepare_owner_continuation || coordinated,
                    Some(
                        VulkanTimelineSemaphorePoint {
                            semaphore: synchronization.done_source,
                            value,
                        },
                    ),
                ),
                None => Seq::empty(),
            },
            signal_completion: submission.signal_completion && !coordinated,
        },
        failure: "failed to submit distributed dispatch "@
            + runner.planned.dispatches[0].component_id + "."@
            + runner.planned.dispatches[0].node_id + " shard on "@ + debug_text(shard.device_id)
            + ": "@,
    }
}

/// Submitting the work of all shards.
pub open spec fn submit_stages(
    runner: VulkanDistributedDispatchRunnerModel,
    submission: VulkanDistributedDispatchSubmission,
) -> Seq<VulkanDistributedExecutionStageModel> {
    runner.shards.map_values(
        |shard: VulkanDistributedDispatchShardRunnerModel|
            submit_stage(runner, submission, shard),
    )
}

/// Submitting what the owner runs after the shards.
pub open spec fn coordinator_stages(
    runner: VulkanDistributedDispatchRunnerModel,
    submission: VulkanDistributedDispatchSubmission,
) -> Seq<VulkanDistributedExecutionStageModel> {
    match coordinator(runner) {
        None => Seq::empty(),
        Some(sequence) => seq![
            resolve_owner_stage(runner),
            VulkanDistributedExecutionStageModel {
                request: VulkanDistributedExecutionRequestModel::Submit {
                    device_id: runner.planned.owner_device_id,
                    sequence,
                    wait_points: done_points(
                        runner.helper_synchronization,
                        submission.dependency_value,
                    ),
                    signal_points: Seq::empty(),
                    signal_completion: submission.signal_completion,
                },
                failure: "failed to submit distributed coordinator "@
                    + runner.planned.dispatches[0].component_id + "."@
                    + runner.planned.dispatches.last().node_id + " on "@ + debug_text(
                    runner.planned.owner_device_id,
                ) + ": "@,
            },
        ],
    }
}

/// The first shard from an index on that lacks the sequence of a kind makes an error.
pub open spec fn sequence_fault_from(
    shards: Seq<VulkanDistributedDispatchShardRunnerModel>,
    kind: VulkanDistributedDispatchSequenceKind,
    index: nat,
) -> Option<Seq<char>>
    decreases shards.len() - index,
{
    if index >= shards.len() {
        None
    } else {
        match shard_sequence(shards[index as int], kind) {
            Err(message) => Some(message),
            Ok(_) => sequence_fault_from(shards, kind, index + 1),
        }
    }
}

/// What devices are asked for to run an island.
pub open spec fn submission_plan(
    runner: VulkanDistributedDispatchRunnerModel,
    submission: VulkanDistributedDispatchSubmission,
) -> ExecutionStagesModel {
    match sequence_fault_from(runner.shards, submission.sequence_kind, 0) {
        Some(message) => Err((resolve_stages(runner), message)),
        None => Ok(
            resolve_stages(runner) + submit_stages(runner, submission) + coordinator_stages(
                runner,
                submission,
            ),
        ),
    }
}

fn find_helper<'a>(
    synchronizations: &'a Vec<VulkanDistributedQueueSynchronization>,
    device_id: &String,
) -> (found: Option<&'a VulkanDistributedQueueSynchronization>)
    ensures
        match found {
            Some(synchronization) => find_from(
                synchronizations.deep_view(),
                0,
                is_helper(device_id@),
            ) == Some(synchronization.deep_view()),
            None => find_from(synchronizations.deep_view(), 0, is_helper(device_id@)) is None,
        },
{
    let ghost all = synchronizations.deep_view();
    let ghost condition = is_helper(device_id@);
    for index in 0..synchronizations.len()
        invariant
            all == synchronizations.deep_view(),
            condition == is_helper(device_id@),
            find_from(all, 0, condition) == find_from(all, index as nat, condition),
    {
        assert(all[index as int] == synchronizations@[index as int].deep_view());
        if synchronizations[index].device_id == *device_id {
            return Some(&synchronizations[index]);
        }
    }
    None
}

fn points_where(wanted: bool, point: VulkanTimelineSemaphorePoint) -> (points: Vec<
    VulkanTimelineSemaphorePoint,
>)
    ensures
        points.deep_view() == point_where(wanted, Some(point)),
{
    let mut points: Vec<VulkanTimelineSemaphorePoint> = Vec::new();
    assert(points.deep_view() =~= Seq::empty());
    if wanted {
        append(&mut points, point);
    }
    assert(points.deep_view() =~= point_where(wanted, Some(point)));
    points
}

fn plan_submit(
    runner: &VulkanDistributedDispatchRunner,
    submission: VulkanDistributedDispatchSubmission,
    shard: &VulkanDistributedDispatchShardRunner,
    sequence: u64,
) -> (stage: VulkanDistributedExecutionStage)
    requires
        runner.planned.dispatches.len() > 0,
        shard_sequence(shard.deep_view(), submission.sequence_kind) == Ok::<u64, Seq<char>>(
            sequence,
        ),
    ensures
        stage.deep_view() == submit_stage(runner.deep_view(), submission, shard.deep_view()),
{
    let coordinated: bool = runner.coordinator_sequence().is_some();
    let value: u64 = submission.dependency_value;
    let mut wait_points: Vec<VulkanTimelineSemaphorePoint> = Vec::new();
    let mut signal_points: Vec<VulkanTimelineSemaphorePoint> = Vec::new();
    assert(wait_points.deep_view() =~= Seq::empty());
    assert(signal_points.deep_view() =~= Seq::empty());
    match find_helper(&runner.helper_synchronization, &shard.device_id) {
        None => {},
        Some(synchronization) => {
            wait_points = points_where(
                submission.consume_owner_ready_signal,
                synchronization.helper_ready(value),
            );
            signal_points = points_where(
                submission.prepare_owner_continuation || coordinated,
                synchronization.helper_done(value),
            );
        },
    }
    let leader = runner.planned.leader();
    VulkanDistributedExecutionStage {
        request: VulkanDistributedExecutionRequest::Submit {
            device_id: shard.device_id.clone(),
            sequence,
            wait_points,
            signal_points,
            signal_completion: submission.signal_completion && !coordinated,
        },
        failure: join7(
            "failed to submit distributed dispatch ",
            leader.component_id.as_str(),
            ".",
            leader.node_id.as_str(),
            " shard on ",
            quoted(shard.device_id.as_str()).as_str(),
            ": ",
        ),
    }
}

/// Lists what devices are asked for to run an island.
pub fn plan_submission(
    runner: &VulkanDistributedDispatchRunner,
    submission: VulkanDistributedDispatchSubmission,
) -> (result: (
    Vec<VulkanDistributedExecutionStage>,
    Result<(), VulkanDistributedDispatchRunnerError>,
))
    requires
        runner.planned.dispatches.len() > 0,
    ensures
        execution_stages_agree(
            result.1,
            result.0.deep_view(),
            submission_plan(runner.deep_view(), submission),
        ),
{
    let ghost model = runner.deep_view();
    let ghost resolves = resolve_stages(model);
    let ghost submits = submit_stages(model, submission);
    let mut stages = list_resolve_stages(runner);
    let mut planned: Vec<VulkanDistributedExecutionStage> = Vec::new();
    assert(planned.deep_view() =~= submits.take(0));
    for index in 0..runner.shards.len()
        invariant
            runner.planned.dispatches.len() > 0,
            model == runner.deep_view(),
            resolves == resolve_stages(model),
            stages.deep_view() == resolves,
            submits == submit_stages(model, submission),
            planned.deep_view() == submits.take(index as int),
            sequence_fault_from(model.shards, submission.sequence_kind, 0) == sequence_fault_from(
                model.shards,
                submission.sequence_kind,
                index as nat,
            ),
    {
        let shard = &runner.shards[index];
        assert(model.shards[index as int] == shard.deep_view());
        match shard.sequence_for_kind(submission.sequence_kind) {
            Err(error) => {
                return (stages, Err(error));
            },
            Ok(sequence) => {
                append(&mut planned, plan_submit(runner, submission, shard, sequence));
            },
        }
        assert(submits.take(index as int + 1) =~= submits.take(index as int).push(
            submits[index as int],
        ));
    }
    assert(submits.take(submits.len() as int) =~= submits);
    crate::islands::append_all(&mut stages, &planned);
    match runner.coordinator_sequence() {
        None => {},
        Some(sequence) => {
            push_resolve_owner(&mut stages, runner);
            let empty: Vec<VulkanTimelineSemaphorePoint> = Vec::new();
            assert(empty.deep_view() =~= Seq::empty());
            append(
                &mut stages,
                VulkanDistributedExecutionStage {
                    request: VulkanDistributedExecutionRequest::Submit {
                        device_id: runner.planned.owner_device_id.clone(),
                        sequence,
                        wait_points: list_done_points(
                            &runner.helper_synchronization,
                            submission.dependency_value,
                        ),
                        signal_points: empty,
                        signal_completion: submission.signal_completion,
                    },
                    failure: join7(
                        "failed to submit distributed coordinator ",
                        runner.planned.leader().component_id.as_str(),
                        ".",
                        runner.planned.tail().node_id.as_str(),
                        " on ",
                        quoted(runner.planned.owner_device_id.as_str()).as_str(),
                        ": ",
                    ),
                },
            );
        },
    }
    assert(stages.deep_view() =~= resolves + submits + coordinator_stages(model, submission));
    (stages, Ok(()))
}

/// A device that was asked for something gave an answer and left the devices so.
pub open spec fn execution_gave<
    D,
    P: Fn(D, &VulkanDistributedExecutionRequest) -> (D, Result<u64, String>),
>(
    perform: P,
    from: D,
    request: VulkanDistributedExecutionRequestModel,
    to: D,
    reply: Result<u64, String>,
) -> bool {
    exists|asked: &VulkanDistributedExecutionRequest|
        asked.deep_view() == request && #[trigger] call_ensures(
            perform,
            (from, asked),
            (to, reply),
        )
}

/// The first stages were served, one after the other.
pub open spec fn were_served<
    D,
    P: Fn(D, &VulkanDistributedExecutionRequest) -> (D, Result<u64, String>),
>(
    perform: P,
    stages: Seq<VulkanDistributedExecutionStageModel>,
    handles: Seq<u64>,
    from: D,
    to: D,
) -> bool
    decreases handles.len(),
{
    if handles.len() == 0 {
        from == to
    } else {
        handles.len() <= stages.len() && exists|at: D| #[trigger]
            execution_gave(
                perform,
                at,
                stages[handles.len() - 1].request,
                to,
                Ok::<u64, String>(handles.last()),
            ) && were_served(perform, stages, handles.drop_last(), from, at)
    }
}

/// One more stage was served.
pub proof fn lemma_served_step<
    D,
    P: Fn(D, &VulkanDistributedExecutionRequest) -> (D, Result<u64, String>),
>(
    perform: P,
    stages: Seq<VulkanDistributedExecutionStageModel>,
    handles: Seq<u64>,
    handle: u64,
    from: D,
    at: D,
    to: D,
)
    requires
        handles.len() < stages.len(),
        were_served(perform, stages, handles, from, at),
        execution_gave(
            perform,
            at,
            stages[handles.len() as int].request,
            to,
            Ok::<u64, String>(handle),
        ),
    ensures
        were_served(perform, stages, handles.push(handle), from, to),
{
    let next = handles.push(handle);
    assert(next.drop_last() =~= handles);
    assert(execution_gave(
        perform,
        at,
        stages[next.len() - 1].request,
        to,
        Ok::<u64, String>(next.last()),
    ));
}

/// The stage failed for a reason.
pub open spec fn stage_failed<
    D,
    P: Fn(D, &VulkanDistributedExecutionRequest) -> (D, Result<u64, String>),
>(
    perform: P,
    stage: VulkanDistributedExecutionStageModel,
    text: Seq<char>,
    from: D,
    to: D,
) -> bool {
    exists|reason: String| #[trigger]
        execution_gave(perform, from, stage.request, to, Err::<u64, String>(reason)) && text
            == stage.failure + reason@
}

/// Waiting for what was submitted before a stage.
pub open spec fn cleanup_requests(
    stages: Seq<VulkanDistributedExecutionStageModel>,
) -> Seq<VulkanDistributedExecutionRequestModel>
    decreases stages.len(),
{
    if stages.len() == 0 {
        Seq::empty()
    } else {
        let earlier = cleanup_requests(stages.drop_last());
        match stages.last().request {
            VulkanDistributedExecutionRequestModel::Submit { device_id, sequence, .. } =>
                earlier.push(
                    VulkanDistributedExecutionRequestModel::Wait { device_id, sequence },
                ),
            _ => earlier,
        }
    }
}

/// Devices were asked for all of this, one after the other, whatever they answered.
pub open spec fn were_asked<
    D,
    P: Fn(D, &VulkanDistributedExecutionRequest) -> (D, Result<u64, String>),
>(
    perform: P,
    requests: Seq<VulkanDistributedExecutionRequestModel>,
    from: D,
    to: D,
) -> bool
    decreases requests.len(),
{
    if requests.len() == 0 {
        from == to
    } else {
        exists|at: D, reply: Result<u64, String>| #[trigger]
            execution_gave(perform, at, requests.last(), to, reply) && were_asked(
                perform,
                requests.drop_last(),
                from,
                at,
            )
    }
}

/// Devices may be asked for the stages in turn: for each once all before it were
/// served. Nothing else is asked of them.
pub open spec fn stages_can_be_asked<
    D,
    P: Fn(D, &VulkanDistributedExecutionRequest) -> (D, Result<u64, String>),
>(
    perform: P,
    stages: Seq<VulkanDistributedExecutionStageModel>,
    from: D,
) -> bool {
    forall|handles: Seq<u64>, at: D, asked: &VulkanDistributedExecutionRequest|
        #![trigger were_served(perform, stages, handles, from, at), call_requires(perform, (at, asked))]
        were_served(perform, stages, handles, from, at) && handles.len() < stages.len()
            && asked.deep_view() == stages[handles.len() as int].request ==> call_requires(
            perform,
            (at, asked),
        )
}

/// The first stages were served, and the next one, which submits, failed.
pub open spec fn submitting_failed<
    D,
    P: Fn(D, &VulkanDistributedExecutionRequest) -> (D, Result<u64, String>),
>(
    perform: P,
    stages: Seq<VulkanDistributedExecutionStageModel>,
    handles: Seq<u64>,
    from: D,
    to: D,
) -> bool {
    &&& handles.len() < stages.len()
    &&& stages[handles.len() as int].request is Submit
    &&& exists|at: D, reason: String| #[trigger]
        execution_gave(
            perform,
            at,
            stages[handles.len() as int].request,
            to,
            Err::<u64, String>(reason),
        ) && were_served(perform, stages, handles, from, at)
}

/// Where submitting failed, what was submitted before may be waited for in turn.
pub open spec fn cleanup_can_be_asked<
    D,
    P: Fn(D, &VulkanDistributedExecutionRequest) -> (D, Result<u64, String>),
>(
    perform: P,
    stages: Seq<VulkanDistributedExecutionStageModel>,
    from: D,
) -> bool {
    forall|handles: Seq<u64>, failed: D| #[trigger]
        submitting_failed(perform, stages, handles, from, failed) ==> requests_can_be_asked(
            perform,
            cleanup_requests(stages.take(handles.len() as int)),
            failed,
        )
}

/// Devices may be asked for all of this in turn, whatever they answer.
pub open spec fn requests_can_be_asked<
    D,
    P: Fn(D, &VulkanDistributedExecutionRequest) -> (D, Result<u64, String>),
>(
    perform: P,
    requests: Seq<VulkanDistributedExecutionRequestModel>,
    from: D,
) -> bool {
    forall|count: int, at: D, asked: &VulkanDistributedExecutionRequest|
        #![trigger were_asked(perform, requests.take(count), from, at), call_requires(perform, (at, asked))]
        0 <= count < requests.len() && were_asked(perform, requests.take(count), from, at)
            && asked.deep_view() == requests[count] ==> call_requires(perform, (at, asked))
}

/// An island may be submitted: every device is found before the first submission, each
/// stage comes after those before it, and a failed submission is followed by the waits
/// for the earlier ones. Without such an island nothing is asked.
pub open spec fn submission_can_be_asked<
    D,
    P: Fn(D, &VulkanDistributedExecutionRequest) -> (D, Result<u64, String>),
>(
    perform: P,
    runners: VulkanDistributedDispatchRunnersModel,
    owner_device_id: Seq<char>,
    dispatch_index: usize,
    submission: VulkanDistributedDispatchSubmission,
    from: D,
) -> bool {
    match find_from(runners.dispatches, 0, leads(owner_device_id, dispatch_index)) {
        None => true,
        Some(runner) => {
            let stages = stages_of(submission_plan(runner, submission));
            &&& stages_can_be_asked(perform, stages, from)
            &&& cleanup_can_be_asked(perform, stages, from)
        },
    }
}

/// A stage failed and made the error. Where it submits, what was submitted before it was
/// waited for.
pub open spec fn submission_stopped<
    D,
    P: Fn(D, &VulkanDistributedExecutionRequest) -> (D, Result<u64, String>),
>(
    perform: P,
    stages: Seq<VulkanDistributedExecutionStageModel>,
    count: int,
    text: Seq<char>,
    from: D,
    to: D,
) -> bool {
    if stages[count].request is Submit {
        exists|failed: D| #[trigger]
            stage_failed(perform, stages[count], text, from, failed) && were_asked(
                perform,
                cleanup_requests(stages.take(count)),
                failed,
                to,
            )
    } else {
        stage_failed(perform, stages[count], text, from, to)
    }
}

/// The answers of devices led to the outcome: every stage was served and the plan
/// ended with it, or the first stage that failed made the error. Nothing else was asked.
pub open spec fn submission_led_to<
    D,
    P: Fn(D, &VulkanDistributedExecutionRequest) -> (D, Result<u64, String>),
>(
    perform: P,
    plan: ExecutionStagesModel,
    handles: Seq<u64>,
    outcome: Result<(), VulkanDistributedDispatchRunnerError>,
    from: D,
    to: D,
) -> bool {
    let stages = stages_of(plan);
    if handles.len() < stages.len() {
        outcome is Err && exists|at: D| #[trigger]
            were_served(perform, stages, handles, from, at) && submission_stopped(
                perform,
                stages,
                handles.len() as int,
                outcome->Err_0.0@,
                at,
                to,
            )
    } else {
        were_served(perform, stages, handles, from, to) && match plan {
            Ok(_) => outcome is Ok,
            Err(ended) => outcome is Err && outcome->Err_0.0@ == ended.1,
        }
    }
}

/// Lists the waits for what the first stages submitted.
pub fn list_cleanup_requests(
    stages: &Vec<VulkanDistributedExecutionStage>,
    count: usize,
) -> (requests: Vec<VulkanDistributedExecutionRequest>)
    requires
        count <= stages.len(),
    ensures
        requests.deep_view() == cleanup_requests(stages.deep_view().take(count as int)),
{
    let ghost all = stages.deep_view();
    let mut requests: Vec<VulkanDistributedExecutionRequest> = Vec::new();
    assert(requests.deep_view() =~= cleanup_requests(all.take(0)));
    for index in 0..count
        invariant
            count <= stages.len(),
            all == stages.deep_view(),
            requests.deep_view() == cleanup_requests(all.take(index as int)),
    {
        assert(all[index as int] == stages@[index as int].deep_view());
        assert(all.take(index as int + 1).drop_last() =~= all.take(index as int));
        match &stages[index].request {
            VulkanDistributedExecutionRequest::Submit { device_id, sequence, .. } => {
                append(
                    &mut requests,
                    VulkanDistributedExecutionRequest::Wait {
                        device_id: device_id.clone(),
                        sequence: *sequence,
                    },
                );
            },
            _ => {},
        }
    }
    requests
}

fn is_submit(request: &VulkanDistributedExecutionRequest) -> (result: bool)
    ensures
        result == (request.deep_view() is Submit),
{
    match request {
        VulkanDistributedExecutionRequest::Submit { .. } => true,
        _ => false,
    }
}

/// Asks devices for all of this in turn, whatever they answer.
fn ask_for_all<
    D,
    P: Fn(D, &VulkanDistributedExecutionRequest) -> (D, Result<u64, String>),
>(
    requests: &Vec<VulkanDistributedExecutionRequest>,
    devices: D,
    perform: &P,
) -> (left: D)
    requires
        requests_can_be_asked(*perform, requests.deep_view(), devices),
    ensures
        were_asked(*perform, requests.deep_view(), devices, left),
{
    let ghost all = requests.deep_view();
    let ghost from = devices;
    let mut current = devices;
    assert(all.take(0) =~= Seq::empty());
    for index in 0..requests.len()
        invariant
            requests_can_be_asked(*perform, all, from),
            from == devices,
            all == requests.deep_view(),
            were_asked(*perform, all.take(index as int), from, current),
    {
        let ghost at = current;
        assert(all[index as int] == requests@[index as int].deep_view());
        let (next, reply) = perform(current, &requests[index]);
        current = next;
        proof {
            let asked = all.take(index as int + 1);
            assert(asked.drop_last() =~= all.take(index as int));
            assert(call_ensures(*perform, (at, &requests@[index as int]), (current, reply)));
            assert(execution_gave(*perform, at, asked.last(), current, reply));
            assert(were_asked(*perform, asked, from, current));
        }
    }
    assert(all.take(all.len() as int) =~= all);
    current
}

/// Asks devices for the stages in turn, up to the first failure; where submitting
/// fails, waits for what was submitted before.
fn perform_submission<
    D,
    P: Fn(D, &VulkanDistributedExecutionRequest) -> (D, Result<u64, String>),
>(
    stages: &Vec<VulkanDistributedExecutionStage>,
    ended: Result<(), VulkanDistributedDispatchRunnerError>,
    devices: D,
    perform: &P,
    Ghost(plan): Ghost<ExecutionStagesModel>,
) -> (result: (Result<(), VulkanDistributedDispatchRunnerError>, D, Ghost<Seq<u64>>))
    requires
        stages_can_be_asked(*perform, stages_of(plan), devices),
        cleanup_can_be_asked(*perform, stages_of(plan), devices),
        execution_stages_agree(ended, stages.deep_view(), plan),
    ensures
        submission_led_to(*perform, plan, result.2@, result.0, devices, result.1),
{
    let ghost all = stages.deep_view();
    let ghost mut handles: Seq<u64> = Seq::empty();
    let ghost from = devices;
    let mut current = devices;
    for index in 0..stages.len()
        invariant
            stages_can_be_asked(*perform, all, from),
            cleanup_can_be_asked(*perform, all, from),
            from == devices,
            all == stages.deep_view(),
            all == stages_of(plan),
            handles.len() == index,
            were_served(*perform, all, handles, from, current),
    {
        let stage = &stages[index];
        assert(all[index as int] == stage.deep_view());
        let ghost at = current;
        let (next, reply) = perform(current, &stage.request);
        current = next;
        assert(call_ensures(*perform, (at, &stage.request), (current, reply)));
        assert(execution_gave(*perform, at, all[index as int].request, current, reply));
        match reply {
            Err(reason) => {
                let ghost failed_at = current;
                let failed: Result<(), VulkanDistributedDispatchRunnerError> = runner_fault(
                    join2(stage.failure.as_str(), reason.as_str()),
                );
                assert(execution_gave(
                    *perform,
                    at,
                    all[index as int].request,
                    failed_at,
                    Err::<u64, String>(reason),
                ));
                assert(stage_failed(
                    *perform,
                    all[index as int],
                    failed->Err_0.0@,
                    at,
                    failed_at,
                ));
                if is_submit(&stage.request) {
                    assert(submitting_failed(*perform, all, handles, from, failed_at));
                    let requests = list_cleanup_requests(stages, index);
                    current = ask_for_all(&requests, current, perform);
                }
                assert(submission_stopped(
                    *perform,
                    all,
                    index as int,
                    failed->Err_0.0@,
                    at,
                    current,
                ));
                return (failed, current, Ghost(handles));
            },
            Ok(handle) => {
                proof {
                    lemma_served_step(*perform, all, handles, handle, from, at, current);
                    handles = handles.push(handle);
                }
            },
        }
    }
    (ended, current, Ghost(handles))
}

/// The record of a run of an island.
pub open spec fn run_record(
    runner: VulkanDistributedDispatchRunnerModel,
    owner_device_id: Seq<char>,
    dispatch_index: usize,
    kind: VulkanDistributedDispatchSequenceKind,
) -> VulkanDistributedDispatchRunModel {
    VulkanDistributedDispatchRunModel {
        owner_device_id,
        dispatch_index,
        component_id: runner.planned.dispatches[0].component_id,
        node_id: runner.planned.dispatches.last().node_id,
        shard_count: runner.shards.len() as usize,
        sequence_kind: kind,
    }
}

/// The outcome without the record of the run.
pub open spec fn without_record<T>(
    outcome: Result<T, VulkanDistributedDispatchRunnerError>,
) -> Result<(), VulkanDistributedDispatchRunnerError> {
    match outcome {
        Ok(_) => Ok(()),
        Err(error) => Err(error),
    }
}

/// Some answers that the devices can give to a submission lead to the outcome.
pub open spec fn submission_can_give<
    D,
    P: Fn(D, &VulkanDistributedExecutionRequest) -> (D, Result<u64, String>),
>(
    perform: P,
    runners: VulkanDistributedDispatchRunnersModel,
    owner_device_id: Seq<char>,
    dispatch_index: usize,
    submission: VulkanDistributedDispatchSubmission,
    outcome: Result<VulkanDistributedDispatchRun, VulkanDistributedDispatchRunnerError>,
    from: D,
    to: D,
) -> bool {
    match find_from(runners.dispatches, 0, leads(owner_device_id, dispatch_index)) {
        None => from == to && outcome is Err && outcome->Err_0.0@ == missing_dispatch_text(
            owner_device_id,
            dispatch_index,
        ),
        Some(runner) => {
            &&& exists|handles: Seq<u64>| #[trigger]
                submission_led_to(
                    perform,
                    submission_plan(runner, submission),
                    handles,
                    without_record(outcome),
                    from,
                    to,
                )
            &&& outcome is Ok ==> outcome->Ok_0.deep_view() == run_record(
                runner,
                owner_device_id,
                dispatch_index,
                submission.sequence_kind,
            )
        },
    }
}

impl VulkanDistributedDispatchRunners {
    /// Submits the island of an owner that starts with a dispatch: finds the devices,
    /// submits every shard, then what the owner runs after them. The devices are handed
    /// from call to call, so that one call after the other is made on them and none is
    /// made twice.
    pub fn submit_dispatch_with_device_dependencies<
        D,
        P: Fn(D, &VulkanDistributedExecutionRequest) -> (D, Result<u64, String>),
    >(
        &self,
        owner_device_id: &str,
        dispatch_index: usize,
        submission: VulkanDistributedDispatchSubmission,
        devices: D,
        perform: &P,
    ) -> (result: (Result<VulkanDistributedDispatchRun, VulkanDistributedDispatchRunnerError>, D))
        requires
            runners_are_sound(self.deep_view()),
            submission_can_be_asked(
                *perform,
                self.deep_view(),
                owner_device_id@,
                dispatch_index,
                submission,
                devices,
            ),
        ensures
            submission_can_give(
                *perform,
                self.deep_view(),
                owner_device_id@,
                dispatch_index,
                submission,
                result.0,
                devices,
                result.1,
            ),
    {
        let ghost all = self.deep_view().dispatches;
        let ghost condition = leads(owner_device_id@, dispatch_index);
        match self.dispatch(owner_device_id, dispatch_index) {
            None => (runner_fault(missing_dispatch(owner_device_id, dispatch_index)), devices),
            Some(runner) => {
                proof {
                    crate::dispatch_runners::lemma_found_satisfies(all, 0, condition);
                }
                let ghost model = runner.deep_view();
                let ghost from = devices;
                let (stages, ended) = plan_submission(runner, submission);
                let (performed, left, handles) = perform_submission(
                    &stages,
                    ended,
                    devices,
                    perform,
                    Ghost(submission_plan(model, submission)),
                );
                let submitted: Result<
                    VulkanDistributedDispatchRun,
                    VulkanDistributedDispatchRunnerError,
                > = match performed {
                    Err(error) => Err(error),
                    Ok(_) => Ok(
                        VulkanDistributedDispatchRun {
                            owner_device_id: owner_device_id.to_owned(),
                            dispatch_index,
                            component_id: runner.planned.leader().component_id.clone(),
                            node_id: runner.planned.tail().node_id.clone(),
                            shard_count: runner.shards.len(),
                            sequence_kind: submission.sequence_kind,
                        },
                    ),
                };
                proof {
                    if performed is Ok {
                        assert(performed->Ok_0 == ());
                    }
                    assert(without_record(submitted) == performed);
                    assert(submission_led_to(
                        *perform,
                        submission_plan(model, submission),
                        handles@,
                        without_record(submitted),
                        from,
                        left,
                    ));
                }
                (submitted, left)
            },
        }
    }
}

} // verus!
