//! Waiting for islands, and running them again once missing resources are loaded.
use vstd::prelude::*;

use crate::dispatch_runners::{
    leads, lemma_found_at, lemma_found_satisfies, missing_dispatch, missing_dispatch_text, reservation,
    runners_are_sound, VulkanDistributedDispatchRunner, VulkanDistributedDispatchRunnerModel,
    VulkanDistributedDispatchRunners, VulkanDistributedDispatchRunnersModel,
    VulkanDistributedDispatchShardRunner, VulkanDistributedDispatchShardRunnerModel,
};
use crate::errors::VulkanDistributedDispatchRunnerError;
use crate::execution_plans::{
    VulkanDistributedDispatchSequenceKind, VulkanDistributedDispatchSubmission,
};
use crate::islands::{append_all, distinct_values};
use crate::ordered::{ordered_values, OrderedMap};
use crate::resident::VulkanResidentBuffer;
use crate::runner_bindings::runner_fault;
use crate::runner_execution::{
    coordinator, execution_gave, execution_stages_agree, lemma_served_step, list_resolve_stages,
    push_resolve_owner,
    resolve_owner_stage, resolve_stages, shard_sequence, stage_failed, stages_can_be_asked,
    stages_of, submission_can_be_asked, submission_can_give, were_served, ExecutionStagesModel,
    VulkanDistributedDispatchRun, VulkanDistributedExecutionRequest,
    VulkanDistributedExecutionRequestModel, VulkanDistributedExecutionStage,
    VulkanDistributedExecutionStageModel,
};
use crate::sequences::{append, distinct, find_from};
use crate::text::{debug_text, join2, join3, join7, quoted};
use crate::values::PlainValue;

verus! {

/// The resources that a gate found missing and that were loaded since.
#[derive(Debug, PartialEq, Eq)]
pub struct VulkanDistributedResidencyMiss {
    pub selector_id: String,
    pub checkpoint_tag: u32,
    pub resource_indices: Vec<usize>,
}

/// The model of [`VulkanDistributedResidencyMiss`].
pub struct VulkanDistributedResidencyMissModel {
    pub selector_id: Seq<char>,
    pub checkpoint_tag: u32,
    pub resource_indices: Seq<usize>,
}

impl DeepView for VulkanDistributedResidencyMiss {
    type V = VulkanDistributedResidencyMissModel;

    open spec fn deep_view(&self) -> VulkanDistributedResidencyMissModel {
        VulkanDistributedResidencyMissModel {
            selector_id: self.selector_id.deep_view(),
            checkpoint_tag: self.checkpoint_tag.deep_view(),
            resource_indices: self.resource_indices.deep_view(),
        }
    }
}

impl Clone for VulkanDistributedResidencyMiss {
    fn clone(&self) -> (copy: Self)
        ensures
            copy.deep_view() == self.deep_view(),
    {
        self.duplicate()
    }
}

impl PlainValue for VulkanDistributedResidencyMiss {
    fn duplicate(&self) -> (copy: Self) {
        VulkanDistributedResidencyMiss {
            selector_id: self.selector_id.duplicate(),
            checkpoint_tag: self.checkpoint_tag.duplicate(),
            resource_indices: self.resource_indices.duplicate(),
        }
    }

    fn same(&self, other: &Self) -> (equal: bool) {
        self.selector_id.same(&other.selector_id)
            && self.checkpoint_tag.same(&other.checkpoint_tag)
            && self.resource_indices.same(&other.resource_indices)
    }
}

/// The resources that a gate of a shard found missing and that were loaded since.
#[derive(Debug, PartialEq, Eq)]
pub struct VulkanDistributedResolvedResidencyMiss {
    pub shard_index: usize,
    pub gate_index: usize,
    pub selector_id: String,
    pub checkpoint_tag: u32,
    pub resource_indices: Vec<usize>,
}

/// The model of [`VulkanDistributedResolvedResidencyMiss`].
pub struct VulkanDistributedResolvedResidencyMissModel {
    pub shard_index: usize,
    pub gate_index: usize,
    pub selector_id: Seq<char>,
    pub checkpoint_tag: u32,
    pub resource_indices: Seq<usize>,
}

impl DeepView for VulkanDistributedResolvedResidencyMiss {
    type V = VulkanDistributedResolvedResidencyMissModel;

    open spec fn deep_view(&self) -> VulkanDistributedResolvedResidencyMissModel {
        VulkanDistributedResolvedResidencyMissModel {
            shard_index: self.shard_index.deep_view(),
            gate_index: self.gate_index.deep_view(),
            selector_id: self.selector_id.deep_view(),
            checkpoint_tag: self.checkpoint_tag.deep_view(),
            resource_indices: self.resource_indices.deep_view(),
        }
    }
}

impl Clone for VulkanDistributedResolvedResidencyMiss {
    fn clone(&self) -> (copy: Self)
        ensures
            copy.deep_view() == self.deep_view(),
    {
        self.duplicate()
    }
}

impl PlainValue for VulkanDistributedResolvedResidencyMiss {
    fn duplicate(&self) -> (copy: Self) {
        VulkanDistributedResolvedResidencyMiss {
            shard_index: self.shard_index.duplicate(),
            gate_index: self.gate_index.duplicate(),
            selector_id: self.selector_id.duplicate(),
            checkpoint_tag: self.checkpoint_tag.duplicate(),
            resource_indices: self.resource_indices.duplicate(),
        }
    }

    fn same(&self, other: &Self) -> (equal: bool) {
        self.shard_index.same(&other.shard_index)
            && self.gate_index.same(&other.gate_index)
            && self.selector_id.same(&other.selector_id)
            && self.checkpoint_tag.same(&other.checkpoint_tag)
            && self.resource_indices.same(&other.resource_indices)
    }
}

/// An island that ran again because resources were missing.
#[derive(Debug, PartialEq, Eq)]
pub struct VulkanDistributedResolvedResidencyFault {
    pub owner_device_id: String,
    pub dispatch_index: usize,
    pub misses: Vec<VulkanDistributedResolvedResidencyMiss>,
}

/// The model of [`VulkanDistributedResolvedResidencyFault`].
pub struct VulkanDistributedResolvedResidencyFaultModel {
    pub owner_device_id: Seq<char>,
    pub dispatch_index: usize,
    pub misses: Seq<VulkanDistributedResolvedResidencyMissModel>,
}

impl DeepView for VulkanDistributedResolvedResidencyFault {
    type V = VulkanDistributedResolvedResidencyFaultModel;

    open spec fn deep_view(&self) -> VulkanDistributedResolvedResidencyFaultModel {
        VulkanDistributedResolvedResidencyFaultModel {
            owner_device_id: self.owner_device_id.deep_view(),
            dispatch_index: self.dispatch_index.deep_view(),
            misses: self.misses.deep_view(),
        }
    }
}

impl Clone for VulkanDistributedResolvedResidencyFault {
    fn clone(&self) -> (copy: Self)
        ensures
            copy.deep_view() == self.deep_view(),
    {
        self.duplicate()
    }
}

impl PlainValue for VulkanDistributedResolvedResidencyFault {
    fn duplicate(&self) -> (copy: Self) {
        VulkanDistributedResolvedResidencyFault {
            owner_device_id: self.owner_device_id.duplicate(),
            dispatch_index: self.dispatch_index.duplicate(),
            misses: self.misses.duplicate(),
        }
    }

    fn same(&self, other: &Self) -> (equal: bool) {
        self.owner_device_id.same(&other.owner_device_id)
            && self.dispatch_index.same(&other.dispatch_index)
            && self.misses.same(&other.misses)
    }
}

/// A gate of a shard.
#[derive(Debug, PartialEq, Eq)]
pub struct ResidencyGate {
    pub shard_index: usize,
    pub gate_index: usize,
    pub device_id: String,
    pub gate: u64,
}

/// The model of [`ResidencyGate`].
pub struct ResidencyGateModel {
    pub shard_index: usize,
    pub gate_index: usize,
    pub device_id: Seq<char>,
    pub gate: u64,
}

impl DeepView for ResidencyGate {
    type V = ResidencyGateModel;

    open spec fn deep_view(&self) -> ResidencyGateModel {
        ResidencyGateModel {
            shard_index: self.shard_index.deep_view(),
            gate_index: self.gate_index.deep_view(),
            device_id: self.device_id.deep_view(),
            gate: self.gate.deep_view(),
        }
    }
}

impl Clone for ResidencyGate {
    fn clone(&self) -> (copy: Self)
        ensures
            copy.deep_view() == self.deep_view(),
    {
        self.duplicate()
    }
}

impl PlainValue for ResidencyGate {
    fn duplicate(&self) -> (copy: Self) {
        ResidencyGate {
            shard_index: self.shard_index.duplicate(),
            gate_index: self.gate_index.duplicate(),
            device_id: self.device_id.duplicate(),
            gate: self.gate.duplicate(),
        }
    }

    fn same(&self, other: &Self) -> (equal: bool) {
        self.shard_index.same(&other.shard_index)
            && self.gate_index.same(&other.gate_index)
            && self.device_id.same(&other.device_id)
            && self.gate.same(&other.gate)
    }
}

/// Waiting for the work of a shard.
pub open spec fn wait_stage(
    runner: VulkanDistributedDispatchRunnerModel,
    shard: VulkanDistributedDispatchShardRunnerModel,
    sequence: u64,
) -> VulkanDistributedExecutionStageModel {
    VulkanDistributedExecutionStageModel {
        request: VulkanDistributedExecutionRequestModel::Wait {
            device_id: shard.device_id,
            sequence,
        },
        failure: "failed waiting for distributed dispatch "@
            + runner.planned.dispatches[0].component_id + "."@
            + runner.planned.dispatches.last().node_id + " shard on "@ + debug_text(
            shard.device_id,
        ) + ": "@,
    }
}

/// Waiting for the work of the shards from an index on.
pub open spec fn wait_stages_from(
    runner: VulkanDistributedDispatchRunnerModel,
    kind: VulkanDistributedDispatchSequenceKind,
    index: nat,
    stages: Seq<VulkanDistributedExecutionStageModel>,
) -> ExecutionStagesModel
    decreases runner.shards.len() - index,
{
    if index >= runner.shards.len() {
        Ok(stages)
    } else {
        match shard_sequence(runner.shards[index as int], kind) {
            Err(message) => Err((stages, message)),
            Ok(sequence) => wait_stages_from(
                runner,
                kind,
                index + 1,
                stages.push(wait_stage(runner, runner.shards[index as int], sequence)),
            ),
        }
    }
}

/// Waiting for what the owner runs after the shards.
pub open spec fn coordinator_wait_stages(runner: VulkanDistributedDispatchRunnerModel) -> Seq<
    VulkanDistributedExecutionStageModel,
> {
    match coordinator(runner) {
        None => Seq::empty(),
        Some(sequence) => seq![
            resolve_owner_stage(runner),
            VulkanDistributedExecutionStageModel {
                request: VulkanDistributedExecutionRequestModel::Wait {
                    device_id: runner.planned.owner_device_id,
                    sequence,
                },
                failure: "failed waiting for distributed coordinator "@
                    + runner.planned.dispatches[0].component_id + "."@
                    + runner.planned.dispatches.last().node_id + " on "@ + debug_text(
                    runner.planned.owner_device_id,
                ) + ": "@,
            },
        ],
    }
}

/// What devices are asked for to wait for an island.
pub open spec fn waiting_plan(
    runner: VulkanDistributedDispatchRunnerModel,
    kind: VulkanDistributedDispatchSequenceKind,
) -> ExecutionStagesModel {
    match wait_stages_from(runner, kind, 0, resolve_stages(runner)) {
        Err(ended) => Err(ended),
        Ok(stages) => Ok(stages + coordinator_wait_stages(runner)),
    }
}

/// Lists what devices are asked for to wait for an island.
pub fn plan_waiting(
    runner: &VulkanDistributedDispatchRunner,
    kind: VulkanDistributedDispatchSequenceKind,
) -> (result: (
    Vec<VulkanDistributedExecutionStage>,
    Result<(), VulkanDistributedDispatchRunnerError>,
))
    requires
        runner.planned.dispatches.len() > 0,
    ensures
        execution_stages_agree(
            result.1,
            result.0.deep_view(),
            waiting_plan(runner.deep_view(), kind),
        ),
{
    let ghost model = runner.deep_view();
    let mut stages = list_resolve_stages(runner);
    let ghost expected = wait_stages_from(model, kind, 0, stages.deep_view());
    for index in 0..runner.shards.len()
        invariant
            runner.planned.dispatches.len() > 0,
            model == runner.deep_view(),
            expected == wait_stages_from(model, kind, 0, resolve_stages(model)),
            expected == wait_stages_from(model, kind, index as nat, stages.deep_view()),
    {
        let shard = &runner.shards[index];
        assert(model.shards[index as int] == shard.deep_view());
        match shard.sequence_for_kind(kind) {
            Err(error) => {
                return (stages, Err(error));
            },
            Ok(sequence) => {
                append(
                    &mut stages,
                    VulkanDistributedExecutionStage {
                        request: VulkanDistributedExecutionRequest::Wait {
                            device_id: shard.device_id.clone(),
                            sequence,
                        },
                        failure: join7(
                            "failed waiting for distributed dispatch ",
                            runner.planned.leader().component_id.as_str(),
                            ".",
                            runner.planned.tail().node_id.as_str(),
                            " shard on ",
                            quoted(shard.device_id.as_str()).as_str(),
                            ": ",
                        ),
                    },
                );
            },
        }
    }
    let ghost waited = stages.deep_view();
    match runner.coordinator_sequence() {
        None => {},
        Some(sequence) => {
            push_resolve_owner(&mut stages, runner);
            append(
                &mut stages,
                VulkanDistributedExecutionStage {
                    request: VulkanDistributedExecutionRequest::Wait {
                        device_id: runner.planned.owner_device_id.clone(),
                        sequence,
                    },
                    failure: join7(
                        "failed waiting for distributed coordinator ",
                        runner.planned.leader().component_id.as_str(),
                        ".",
                        runner.planned.tail().node_id.as_str(),
                        " on ",
                        quoted(runner.planned.owner_device_id.as_str()).as_str(),
                        ": ",
                    ),
                },
            );
        },
    }
    assert(stages.deep_view() =~= waited + coordinator_wait_stages(model));
    (stages, Ok(()))
}

/// The text of the first failure among the answers, where one failed.
pub open spec fn first_failure(
    stages: Seq<VulkanDistributedExecutionStageModel>,
    replies: Seq<Result<u64, String>>,
) -> Option<Seq<char>>
    decreases replies.len(),
{
    if replies.len() == 0 {
        None
    } else {
        match first_failure(stages, replies.drop_last()) {
            Some(text) => Some(text),
            None => match replies.last() {
                Ok(_) => None,
                Err(reason) => Some(stages[replies.len() - 1].failure + reason@),
            },
        }
    }
}

/// The devices gave these answers to the first stages, one after the other; only waits
/// may have failed.
pub open spec fn waits_gave<
    D,
    P: Fn(D, &VulkanDistributedExecutionRequest) -> (D, Result<u64, String>),
>(
    perform: P,
    stages: Seq<VulkanDistributedExecutionStageModel>,
    replies: Seq<Result<u64, String>>,
    from: D,
    to: D,
) -> bool
    decreases replies.len(),
{
    if replies.len() == 0 {
        from == to
    } else {
        let request = stages[replies.len() - 1].request;
        &&& replies.len() <= stages.len()
        &&& replies.last() is Ok || request is Wait
        &&& exists|at: D| #[trigger]
            execution_gave(perform, at, request, to, replies.last()) && waits_gave(
                perform,
                stages,
                replies.drop_last(),
                from,
                at,
            )
    }
}

/// The answers of devices led to the outcome: an error of finding a device at once,
/// an error of the plan where it ends, else the first failure among the waits.
pub open spec fn waiting_led_to<
    D,
    P: Fn(D, &VulkanDistributedExecutionRequest) -> (D, Result<u64, String>),
>(
    perform: P,
    plan: ExecutionStagesModel,
    replies: Seq<Result<u64, String>>,
    outcome: Result<(), VulkanDistributedDispatchRunnerError>,
    from: D,
    to: D,
) -> bool {
    let stages = stages_of(plan);
    if replies.len() < stages.len() {
        &&& !(stages[replies.len() as int].request is Wait)
        &&& outcome is Err
        &&& exists|at: D| #[trigger]
            waits_gave(perform, stages, replies, from, at) && stage_failed(
                perform,
                stages[replies.len() as int],
                outcome->Err_0.0@,
                at,
                to,
            )
    } else {
        waits_gave(perform, stages, replies, from, to) && match plan {
            Err(ended) => outcome is Err && outcome->Err_0.0@ == ended.1,
            Ok(_) => match first_failure(stages, replies) {
                Some(text) => outcome is Err && outcome->Err_0.0@ == text,
                None => outcome is Ok,
            },
        }
    }
}

/// Devices may be asked to wait: for each stage in turn, once every device before it
/// was found. Nothing else is asked of them.
pub open spec fn waits_can_be_asked<
    D,
    P: Fn(D, &VulkanDistributedExecutionRequest) -> (D, Result<u64, String>),
>(
    perform: P,
    stages: Seq<VulkanDistributedExecutionStageModel>,
    from: D,
) -> bool {
    forall|replies: Seq<Result<u64, String>>, at: D, asked: &VulkanDistributedExecutionRequest|
        #![trigger waits_gave(perform, stages, replies, from, at), call_requires(perform, (at, asked))]
        waits_gave(perform, stages, replies, from, at) && replies.len() < stages.len()
            && asked.deep_view() == stages[replies.len() as int].request ==> call_requires(
            perform,
            (at, asked),
        )
}

fn is_wait(request: &VulkanDistributedExecutionRequest) -> (result: bool)
    ensures
        result == (request.deep_view() is Wait),
{
    match request {
        VulkanDistributedExecutionRequest::Wait { .. } => true,
        _ => false,
    }
}

fn perform_waiting<
    D,
    P: Fn(D, &VulkanDistributedExecutionRequest) -> (D, Result<u64, String>),
>(
    stages: &Vec<VulkanDistributedExecutionStage>,
    ended: Result<(), VulkanDistributedDispatchRunnerError>,
    devices: D,
    perform: &P,
    Ghost(plan): Ghost<ExecutionStagesModel>,
) -> (result: (
    Result<(), VulkanDistributedDispatchRunnerError>,
    D,
    Ghost<Seq<Result<u64, String>>>,
))
    requires
        waits_can_be_asked(*perform, stages_of(plan), devices),
        execution_stages_agree(ended, stages.deep_view(), plan),
    ensures
        waiting_led_to(*perform, plan, result.2@, result.0, devices, result.1),
{
    let ghost all = stages.deep_view();
    let ghost mut replies: Seq<Result<u64, String>> = Seq::empty();
    let ghost from = devices;
    let mut current = devices;
    let mut first: Option<String> = None;
    for index in 0..stages.len()
        invariant
            waits_can_be_asked(*perform, all, from),
            from == devices,
            all == stages.deep_view(),
            all == stages_of(plan),
            replies.len() == index,
            waits_gave(*perform, all, replies, from, current),
            match first {
                Some(text) => first_failure(all, replies) == Some(text@),
                None => first_failure(all, replies) is None,
            },
    {
        let stage = &stages[index];
        assert(all[index as int] == stage.deep_view());
        let ghost at = current;
        let (left, reply) = perform(current, &stage.request);
        current = left;
        assert(call_ensures(*perform, (at, &stage.request), (current, reply)));
        assert(execution_gave(*perform, at, all[index as int].request, current, reply));
        let ghost next = replies.push(reply);
        assert(next.drop_last() =~= replies);
        match reply {
            Ok(_) => {},
            Err(reason) => {
                if !is_wait(&stage.request) {
                    let failed: Result<(), VulkanDistributedDispatchRunnerError> = runner_fault(
                        join2(stage.failure.as_str(), reason.as_str()),
                    );
                    assert(execution_gave(
                        *perform,
                        at,
                        all[index as int].request,
                        current,
                        Err::<u64, String>(reason),
                    ));
                    assert(stage_failed(
                        *perform,
                        all[index as int],
                        failed->Err_0.0@,
                        at,
                        current,
                    ));
                    return (failed, current, Ghost(replies));
                }
                if first.is_none() {
                    first = Some(join2(stage.failure.as_str(), reason.as_str()));
                }
            },
        }
        proof {
            assert(execution_gave(
                *perform,
                at,
                all[next.len() - 1].request,
                current,
                next.last(),
            ));
            assert(waits_gave(*perform, all, next, from, current));
            replies = next;
        }
    }
    match ended {
        Err(error) => (Err(error), current, Ghost(replies)),
        Ok(_) => match first {
            Some(text) => (runner_fault(text), current, Ghost(replies)),
            None => (Ok(()), current, Ghost(replies)),
        },
    }
}

/// The gates of a shard, dispatch after dispatch.
pub open spec fn flat_gates(gates: Seq<Seq<u64>>) -> Seq<u64>
    decreases gates.len(),
{
    if gates.len() == 0 {
        Seq::empty()
    } else {
        flat_gates(gates.drop_last()) + gates.last()
    }
}

/// The gates of a shard with their places.
pub open spec fn shard_residency_gates(
    shard: VulkanDistributedDispatchShardRunnerModel,
    shard_index: nat,
) -> Seq<ResidencyGateModel> {
    let gates = flat_gates(shard.selected_resource_gates);
    Seq::new(
        gates.len(),
        |g: int|
            ResidencyGateModel {
                shard_index: shard_index as usize,
                gate_index: g as usize,
                device_id: shard.device_id,
                gate: gates[g],
            },
    )
}

/// The gates of shards with their places.
pub open spec fn residency_gates(shards: Seq<VulkanDistributedDispatchShardRunnerModel>) -> Seq<
    ResidencyGateModel,
>
    decreases shards.len(),
{
    if shards.len() == 0 {
        Seq::empty()
    } else {
        residency_gates(shards.drop_last()) + shard_residency_gates(
            shards.last(),
            (shards.len() - 1) as nat,
        )
    }
}

pub(crate) fn list_flat_gates(gates: &Vec<Vec<u64>>) -> (flat: Vec<u64>)
    ensures
        flat.deep_view() == flat_gates(gates.deep_view()),
{
    let ghost all = gates.deep_view();
    let mut flat: Vec<u64> = Vec::new();
    assert(flat.deep_view() =~= flat_gates(all.take(0)));
    for index in 0..gates.len()
        invariant
            all == gates.deep_view(),
            flat.deep_view() == flat_gates(all.take(index as int)),
    {
        assert(all[index as int] == gates@[index as int].deep_view());
        assert(all.take(index as int + 1).drop_last() =~= all.take(index as int));
        append_all(&mut flat, &gates[index]);
    }
    assert(all.take(all.len() as int) =~= all);
    flat
}

fn list_residency_gates(shards: &Vec<VulkanDistributedDispatchShardRunner>) -> (listed: Vec<
    ResidencyGate,
>)
    ensures
        listed.deep_view() == residency_gates(shards.deep_view()),
{
    let ghost all = shards.deep_view();
    let mut listed: Vec<ResidencyGate> = Vec::new();
    assert(listed.deep_view() =~= residency_gates(all.take(0)));
    for index in 0..shards.len()
        invariant
            all == shards.deep_view(),
            listed.deep_view() == residency_gates(all.take(index as int)),
    {
        let shard = &shards[index];
        assert(all[index as int] == shard.deep_view());
        assert(all.take(index as int + 1).drop_last() =~= all.take(index as int));
        let flat = list_flat_gates(&shard.selected_resource_gates);
        let ghost before = listed.deep_view();
        let ghost own = shard_residency_gates(shard.deep_view(), index as nat);
        assert(own.len() == flat.deep_view().len());
        assert(listed.deep_view() =~= before + own.take(0));
        for g in 0..flat.len()
            invariant
                own == shard_residency_gates(shard.deep_view(), index as nat),
                flat.deep_view() == flat_gates(shard.deep_view().selected_resource_gates),
                listed.deep_view() == before + own.take(g as int),
        {
            assert(flat.deep_view()[g as int] == flat@[g as int]);
            append(
                &mut listed,
                ResidencyGate {
                    shard_index: index,
                    gate_index: g,
                    device_id: shard.device_id.clone(),
                    gate: flat[g],
                },
            );
            assert(listed.deep_view() =~= before + own.take(g as int + 1));
        }
        assert(own.take(own.len() as int) =~= own);
    }
    assert(all.take(all.len() as int) =~= all);
    listed
}

/// A gate and what it found missing.
pub type MissReply = Option<VulkanDistributedResidencyMiss>;

/// What the gates found missing, in their order.
pub open spec fn resolved_misses(gates: Seq<ResidencyGateModel>, replies: Seq<MissReply>) -> Seq<
    VulkanDistributedResolvedResidencyMissModel,
>
    decreases replies.len(),
{
    if replies.len() == 0 {
        Seq::empty()
    } else {
        let earlier = resolved_misses(gates, replies.drop_last());
        match replies.last() {
            None => earlier,
            Some(miss) => earlier.push(
                VulkanDistributedResolvedResidencyMissModel {
                    shard_index: gates[replies.len() - 1].shard_index,
                    gate_index: gates[replies.len() - 1].gate_index,
                    selector_id: miss.deep_view().selector_id,
                    checkpoint_tag: miss.deep_view().checkpoint_tag,
                    resource_indices: miss.deep_view().resource_indices,
                },
            ),
        }
    }
}

/// A gate of the shard found something missing.
pub open spec fn is_affected(
    misses: Seq<VulkanDistributedResolvedResidencyMissModel>,
    shard_index: nat,
) -> bool {
    exists|i: int|
        0 <= i < misses.len() && (#[trigger] misses[i]).shard_index == shard_index
}

fn shard_is_affected(
    misses: &Vec<VulkanDistributedResolvedResidencyMiss>,
    shard_index: usize,
) -> (result: bool)
    ensures
        result == is_affected(misses.deep_view(), shard_index as nat),
{
    let ghost all = misses.deep_view();
    for index in 0..misses.len()
        invariant
            all == misses.deep_view(),
            forall|i: int| 0 <= i < index ==> (#[trigger] all[i]).shard_index != shard_index,
    {
        assert(all[index as int] == misses@[index as int].deep_view());
        if misses[index].shard_index == shard_index {
            return true;
        }
    }
    false
}

/// A request without a text of its own for failures.
pub open spec fn plain_stage(request: VulkanDistributedExecutionRequestModel) ->
    VulkanDistributedExecutionStageModel {
    VulkanDistributedExecutionStageModel { request, failure: ""@ }
}

/// Letting the predicates of a transaction pass again, each once.
pub open spec fn restore_stages(predicates: Map<Seq<char>, VulkanResidentBuffer>) -> Seq<
    VulkanDistributedExecutionStageModel,
> {
    distinct(ordered_values::<String, VulkanResidentBuffer>(predicates)).map_values(
        |buffer: VulkanResidentBuffer|
            plain_stage(
                VulkanDistributedExecutionRequestModel::RestorePredicate { buffer, value: 1 },
            ),
    )
}

/// Checking that the gates of a shard find nothing missing any more.
pub open spec fn check_stages(shard: VulkanDistributedDispatchShardRunnerModel) -> Seq<
    VulkanDistributedExecutionStageModel,
> {
    flat_gates(shard.selected_resource_gates).map_values(
        |gate: u64|
            plain_stage(
                VulkanDistributedExecutionRequestModel::CompareEpochs {
                    device_id: shard.device_id,
                    gate,
                },
            ),
    )
}

/// Running the affected shards from an index on again.
pub open spec fn rerun_stages_from(
    runner: VulkanDistributedDispatchRunnerModel,
    misses: Seq<VulkanDistributedResolvedResidencyMissModel>,
    kind: VulkanDistributedDispatchSequenceKind,
    index: nat,
    stages: Seq<VulkanDistributedExecutionStageModel>,
) -> ExecutionStagesModel
    decreases runner.shards.len() - index,
{
    if index >= runner.shards.len() {
        Ok(stages)
    } else if !is_affected(misses, index) {
        rerun_stages_from(runner, misses, kind, index + 1, stages)
    } else {
        let shard = runner.shards[index as int];
        match shard_sequence(shard, kind) {
            Err(message) => Err((stages, message)),
            Ok(sequence) => rerun_stages_from(
                runner,
                misses,
                kind,
                index + 1,
                stages.push(
                    plain_stage(
                        VulkanDistributedExecutionRequestModel::Run {
                            device_id: shard.device_id,
                            sequence,
                        },
                    ),
                ) + check_stages(shard),
            ),
        }
    }
}

/// What devices are asked for once missing resources are loaded.
pub open spec fn recovery_plan(
    predicates: Map<Seq<char>, VulkanResidentBuffer>,
    runner: VulkanDistributedDispatchRunnerModel,
    misses: Seq<VulkanDistributedResolvedResidencyMissModel>,
    kind: VulkanDistributedDispatchSequenceKind,
) -> ExecutionStagesModel {
    match rerun_stages_from(runner, misses, kind, 0, restore_stages(predicates)) {
        Err(ended) => Err(ended),
        Ok(stages) => match coordinator(runner) {
            None => Ok(stages),
            Some(sequence) => Ok(
                stages.push(resolve_owner_stage(runner)).push(
                    plain_stage(
                        VulkanDistributedExecutionRequestModel::Run {
                            device_id: runner.planned.owner_device_id,
                            sequence,
                        },
                    ),
                ),
            ),
        },
    }
}

fn list_restore_stages(predicates: &OrderedMap<String, VulkanResidentBuffer>) -> (stages: Vec<
    VulkanDistributedExecutionStage,
>)
    ensures
        stages.deep_view() == restore_stages(predicates.deep_view()),
{
    let buffers = distinct_values(&predicates.to_values());
    let ghost expected = restore_stages(predicates.deep_view());
    let mut stages: Vec<VulkanDistributedExecutionStage> = Vec::new();
    assert(stages.deep_view() =~= expected.take(0));
    for index in 0..buffers.len()
        invariant
            buffers.deep_view() == distinct(
                ordered_values::<String, VulkanResidentBuffer>(predicates.deep_view()),
            ),
            expected == restore_stages(predicates.deep_view()),
            stages.deep_view() == expected.take(index as int),
    {
        assert(buffers.deep_view()[index as int] == buffers@[index as int]);
        append(
            &mut stages,
            VulkanDistributedExecutionStage {
                request: VulkanDistributedExecutionRequest::RestorePredicate {
                    buffer: buffers[index],
                    value: 1,
                },
                failure: "".to_owned(),
            },
        );
        assert(expected.take(index as int + 1) =~= expected.take(index as int).push(
            expected[index as int],
        ));
    }
    assert(expected.take(expected.len() as int) =~= expected);
    stages
}

fn add_check_stages(
    stages: &mut Vec<VulkanDistributedExecutionStage>,
    shard: &VulkanDistributedDispatchShardRunner,
)
    ensures
        final(stages).deep_view() == old(stages).deep_view() + check_stages(shard.deep_view()),
{
    let flat = list_flat_gates(&shard.selected_resource_gates);
    let ghost before = stages.deep_view();
    let ghost expected = check_stages(shard.deep_view());
    assert(stages.deep_view() =~= before + expected.take(0));
    for index in 0..flat.len()
        invariant
            flat.deep_view() == flat_gates(shard.deep_view().selected_resource_gates),
            expected == check_stages(shard.deep_view()),
            stages.deep_view() == before + expected.take(index as int),
    {
        assert(flat.deep_view()[index as int] == flat@[index as int]);
        append(
            stages,
            VulkanDistributedExecutionStage {
                request: VulkanDistributedExecutionRequest::CompareEpochs {
                    device_id: shard.device_id.clone(),
                    gate: flat[index],
                },
                failure: "".to_owned(),
            },
        );
        assert(stages.deep_view() =~= before + expected.take(index as int + 1));
    }
    assert(expected.take(expected.len() as int) =~= expected);
}

/// Lists what devices are asked for once missing resources are loaded.
pub fn plan_recovery(
    predicates: &OrderedMap<String, VulkanResidentBuffer>,
    runner: &VulkanDistributedDispatchRunner,
    misses: &Vec<VulkanDistributedResolvedResidencyMiss>,
    kind: VulkanDistributedDispatchSequenceKind,
) -> (result: (
    Vec<VulkanDistributedExecutionStage>,
    Result<(), VulkanDistributedDispatchRunnerError>,
))
    ensures
        execution_stages_agree(
            result.1,
            result.0.deep_view(),
            recovery_plan(
                predicates.deep_view(),
                runner.deep_view(),
                misses.deep_view(),
                kind,
            ),
        ),
{
    let ghost model = runner.deep_view();
    let ghost missing = misses.deep_view();
    let mut stages = list_restore_stages(predicates);
    let ghost expected = rerun_stages_from(model, missing, kind, 0, stages.deep_view());
    for index in 0..runner.shards.len()
        invariant
            model == runner.deep_view(),
            missing == misses.deep_view(),
            expected == rerun_stages_from(
                model,
                missing,
                kind,
                0,
                restore_stages(predicates.deep_view()),
            ),
            expected == rerun_stages_from(
                model,
                missing,
                kind,
                index as nat,
                stages.deep_view(),
            ),
    {
        let shard = &runner.shards[index];
        assert(model.shards[index as int] == shard.deep_view());
        if shard_is_affected(misses, index) {
            match shard.sequence_for_kind(kind) {
                Err(error) => {
                    return (stages, Err(error));
                },
                Ok(sequence) => {
                    append(
                        &mut stages,
                        VulkanDistributedExecutionStage {
                            request: VulkanDistributedExecutionRequest::Run {
                                device_id: shard.device_id.clone(),
                                sequence,
                            },
                            failure: "".to_owned(),
                        },
                    );
                    add_check_stages(&mut stages, shard);
                },
            }
        }
    }
    match runner.coordinator_sequence() {
        None => {},
        Some(sequence) => {
            push_resolve_owner(&mut stages, runner);
            append(
                &mut stages,
                VulkanDistributedExecutionStage {
                    request: VulkanDistributedExecutionRequest::Run {
                        device_id: runner.planned.owner_device_id.clone(),
                        sequence,
                    },
                    failure: "".to_owned(),
                },
            );
        },
    }
    (stages, Ok(()))
}

/// The text of an error about a gate that still finds something missing.
pub open spec fn faulted_again_text(device_id: Seq<char>) -> Seq<char> {
    "distributed selected-resource checkpoint on "@ + debug_text(device_id)
        + " faulted again immediately after loading"@
}

/// A residency gate still finds something missing.
pub open spec fn faulted_again(
    request: VulkanDistributedExecutionRequestModel,
    reply: u64,
) -> bool {
    request is CompareEpochs && reply != 0
}

/// The first stages of a recovery were served, and every gate among them passed.
pub open spec fn recovery_came_to<
    D,
    P: Fn(D, &VulkanDistributedExecutionRequest) -> (D, Result<u64, String>),
>(
    perform: P,
    stages: Seq<VulkanDistributedExecutionStageModel>,
    handles: Seq<u64>,
    from: D,
    to: D,
) -> bool {
    were_served(perform, stages, handles, from, to) && forall|i: int|
        0 <= i < handles.len() ==> !faulted_again(stages[i].request, #[trigger] handles[i])
}

/// The answers of devices led to the outcome: every stage was served and every gate
/// passed, a stage failed, or a gate still found something missing.
pub open spec fn recovery_led_to<
    D,
    P: Fn(D, &VulkanDistributedExecutionRequest) -> (D, Result<u64, String>),
>(
    perform: P,
    plan: ExecutionStagesModel,
    handles: Seq<u64>,
    outcome: Result<(), VulkanDistributedDispatchRunnerError>,
    from: D,
    to: D,
) -> bool {
    let stages = stages_of(plan);
    let count = handles.len();
    if count > 0 && faulted_again(stages[count - 1].request, handles[count - 1]) {
        &&& were_served(perform, stages, handles, from, to)
        &&& forall|i: int|
            0 <= i < count - 1 ==> !faulted_again(stages[i].request, #[trigger] handles[i])
        &&& outcome is Err
        &&& outcome->Err_0.0@ == faulted_again_text(
            stages[count - 1].request->CompareEpochs_device_id,
        )
    } else if count < stages.len() {
        outcome is Err && exists|at: D| #[trigger]
            recovery_came_to(perform, stages, handles, from, at) && stage_failed(
                perform,
                stages[count as int],
                outcome->Err_0.0@,
                at,
                to,
            )
    } else {
        recovery_came_to(perform, stages, handles, from, to) && match plan {
            Ok(_) => outcome is Ok,
            Err(ended) => outcome is Err && outcome->Err_0.0@ == ended.1,
        }
    }
}

/// Devices may be asked for the stages of a recovery in turn: for each once those before
/// it were served and no gate found anything missing. Nothing else is asked of them.
pub open spec fn recovery_can_be_asked<
    D,
    P: Fn(D, &VulkanDistributedExecutionRequest) -> (D, Result<u64, String>),
>(
    perform: P,
    stages: Seq<VulkanDistributedExecutionStageModel>,
    from: D,
) -> bool {
    forall|handles: Seq<u64>, at: D, asked: &VulkanDistributedExecutionRequest|
        #![trigger recovery_came_to(perform, stages, handles, from, at), call_requires(perform, (at, asked))]
        recovery_came_to(perform, stages, handles, from, at) && handles.len() < stages.len()
            && asked.deep_view() == stages[handles.len() as int].request ==> call_requires(
            perform,
            (at, asked),
        )
}

fn perform_recovery<
    D,
    P: Fn(D, &VulkanDistributedExecutionRequest) -> (D, Result<u64, String>),
>(
    stages: &Vec<VulkanDistributedExecutionStage>,
    ended: Result<(), VulkanDistributedDispatchRunnerError>,
    devices: D,
    perform: &P,
    Ghost(plan): Ghost<ExecutionStagesModel>,
) -> (result: (Result<(), VulkanDistributedDispatchRunnerError>, D, Ghost<Seq<u64>>))
    requires
        recovery_can_be_asked(*perform, stages_of(plan), devices),
        execution_stages_agree(ended, stages.deep_view(), plan),
    ensures
        recovery_led_to(*perform, plan, result.2@, result.0, devices, result.1),
{
    let ghost all = stages.deep_view();
    let ghost mut handles: Seq<u64> = Seq::empty();
    let ghost from = devices;
    let mut current = devices;
    for index in 0..stages.len()
        invariant
            recovery_can_be_asked(*perform, all, from),
            from == devices,
            all == stages.deep_view(),
            all == stages_of(plan),
            handles.len() == index,
            recovery_came_to(*perform, all, handles, from, current),
    {
        let stage = &stages[index];
        assert(all[index as int] == stage.deep_view());
        let ghost at = current;
        let (left, reply) = perform(current, &stage.request);
        current = left;
        assert(call_ensures(*perform, (at, &stage.request), (current, reply)));
        assert(execution_gave(*perform, at, all[index as int].request, current, reply));
        match reply {
            Err(reason) => {
                let failed: Result<(), VulkanDistributedDispatchRunnerError> = runner_fault(
                    join2(stage.failure.as_str(), reason.as_str()),
                );
                assert(execution_gave(
                    *perform,
                    at,
                    all[index as int].request,
                    current,
                    Err::<u64, String>(reason),
                ));
                assert(stage_failed(*perform, all[index as int], failed->Err_0.0@, at, current));
                return (failed, current, Ghost(handles));
            },
            Ok(handle) => {
                let ghost earlier = handles;
                proof {
                    lemma_served_step(*perform, all, handles, handle, from, at, current);
                    handles = handles.push(handle);
                    assert forall|i: int| 0 <= i < handles.len() - 1 implies !faulted_again(
                        all[i].request,
                        #[trigger] handles[i],
                    ) by {
                        assert(handles[i] == earlier[i]);
                    }
                }
                match &stage.request {
                    VulkanDistributedExecutionRequest::CompareEpochs { device_id, .. } => {
                        if handle != 0 {
                            assert(faulted_again(
                                all[index as int].request,
                                handles[handles.len() - 1],
                            ));
                            return (
                                runner_fault(
                                    join3(
                                        "distributed selected-resource checkpoint on ",
                                        quoted(device_id.as_str()).as_str(),
                                        " faulted again immediately after loading",
                                    ),
                                ),
                                current,
                                Ghost(handles),
                            );
                        }
                    },
                    _ => {},
                }
            },
        }
    }
    (ended, current, Ghost(handles))
}

/// A gate that was asked what it found missing gave an answer and left the devices so.
pub open spec fn miss_gave<
    D,
    M: Fn(D, &String, u64) -> (D, Result<MissReply, String>),
>(
    resolve_miss: M,
    from: D,
    gate: ResidencyGateModel,
    to: D,
    reply: Result<MissReply, String>,
) -> bool {
    exists|device_id: &String, handle: u64|
        device_id@ == gate.device_id && handle == gate.gate && #[trigger] call_ensures(
            resolve_miss,
            (from, device_id, handle),
            (to, reply),
        )
}

/// The first gates gave these answers, one after the other.
pub open spec fn misses_gave<
    D,
    M: Fn(D, &String, u64) -> (D, Result<MissReply, String>),
>(
    resolve_miss: M,
    gates: Seq<ResidencyGateModel>,
    replies: Seq<MissReply>,
    from: D,
    to: D,
) -> bool
    decreases replies.len(),
{
    if replies.len() == 0 {
        from == to
    } else {
        replies.len() <= gates.len() && exists|at: D| #[trigger]
            miss_gave(
                resolve_miss,
                at,
                gates[replies.len() - 1],
                to,
                Ok::<MissReply, String>(replies.last()),
            ) && misses_gave(resolve_miss, gates, replies.drop_last(), from, at)
    }
}

/// The gates may be asked what they found missing: each in turn, once those before it
/// answered.
pub open spec fn gates_can_be_asked<
    D,
    M: Fn(D, &String, u64) -> (D, Result<MissReply, String>),
>(
    resolve_miss: M,
    gates: Seq<ResidencyGateModel>,
    from: D,
) -> bool {
    forall|replies: Seq<MissReply>, at: D, device_id: &String, handle: u64|
        #![trigger misses_gave(resolve_miss, gates, replies, from, at), call_requires(resolve_miss, (at, device_id, handle))]
        misses_gave(resolve_miss, gates, replies, from, at) && replies.len() < gates.len()
            && device_id@ == gates[replies.len() as int].device_id && handle
            == gates[replies.len() as int].gate ==> call_requires(
            resolve_miss,
            (at, device_id, handle),
        )
}

/// The first gates answered, and the next one failed.
pub open spec fn gate_failed<
    D,
    M: Fn(D, &String, u64) -> (D, Result<MissReply, String>),
>(
    resolve_miss: M,
    gates: Seq<ResidencyGateModel>,
    replies: Seq<MissReply>,
    error: VulkanDistributedDispatchRunnerError,
    from: D,
    to: D,
) -> bool {
    replies.len() < gates.len() && exists|at: D| #[trigger]
        misses_gave(resolve_miss, gates, replies, from, at) && miss_gave(
            resolve_miss,
            at,
            gates[replies.len() as int],
            to,
            Err::<MissReply, String>(error.0),
        )
}

fn ask_gates<
    D,
    M: Fn(D, &String, u64) -> (D, Result<MissReply, String>),
>(
    gates: &Vec<ResidencyGate>,
    devices: D,
    resolve_miss: &M,
) -> (result: (
    Result<Vec<VulkanDistributedResolvedResidencyMiss>, VulkanDistributedDispatchRunnerError>,
    D,
    Ghost<Seq<MissReply>>,
))
    requires
        gates_can_be_asked(*resolve_miss, gates.deep_view(), devices),
    ensures
        match result.0 {
            Ok(misses) => result.2@.len() == gates.len() && misses_gave(
                *resolve_miss,
                gates.deep_view(),
                result.2@,
                devices,
                result.1,
            ) && misses.deep_view() == resolved_misses(gates.deep_view(), result.2@),
            Err(error) => gate_failed(
                *resolve_miss,
                gates.deep_view(),
                result.2@,
                error,
                devices,
                result.1,
            ),
        },
{
    let ghost all = gates.deep_view();
    let ghost mut replies: Seq<MissReply> = Seq::empty();
    let ghost from = devices;
    let mut current = devices;
    let mut misses: Vec<VulkanDistributedResolvedResidencyMiss> = Vec::new();
    assert(misses.deep_view() =~= Seq::empty());
    for index in 0..gates.len()
        invariant
            gates_can_be_asked(*resolve_miss, all, from),
            from == devices,
            all == gates.deep_view(),
            replies.len() == index,
            misses_gave(*resolve_miss, all, replies, from, current),
            misses.deep_view() == resolved_misses(all, replies),
    {
        let gate = &gates[index];
        assert(all[index as int] == gate.deep_view());
        let ghost at = current;
        let (left, reply) = resolve_miss(current, &gate.device_id, gate.gate);
        current = left;
        assert(call_ensures(
            *resolve_miss,
            (at, &gate.device_id, gate.gate),
            (current, reply),
        ));
        assert(miss_gave(*resolve_miss, at, all[index as int], current, reply));
        match reply {
            Err(reason) => {
                return (
                    Err(VulkanDistributedDispatchRunnerError(reason)),
                    current,
                    Ghost(replies),
                );
            },
            Ok(found) => {
                proof {
                    let next = replies.push(found);
                    assert(next.drop_last() =~= replies);
                    assert(miss_gave(
                        *resolve_miss,
                        at,
                        all[next.len() - 1],
                        current,
                        Ok::<MissReply, String>(next.last()),
                    ));
                    assert(misses_gave(*resolve_miss, all, next, from, current));
                    replies = next;
                }
                match found {
                    None => {},
                    Some(miss) => {
                        append(
                            &mut misses,
                            VulkanDistributedResolvedResidencyMiss {
                                shard_index: gate.shard_index,
                                gate_index: gate.gate_index,
                                selector_id: miss.selector_id,
                                checkpoint_tag: miss.checkpoint_tag,
                                resource_indices: miss.resource_indices,
                            },
                        );
                    },
                }
            },
        }
    }
    (Ok(misses), current, Ghost(replies))
}

/// The devices of all shards of a runner were found.
pub open spec fn devices_were_found<
    D,
    P: Fn(D, &VulkanDistributedExecutionRequest) -> (D, Result<u64, String>),
>(
    perform: P,
    runner: VulkanDistributedDispatchRunnerModel,
    from: D,
    to: D,
) -> bool {
    exists|handles: Seq<u64>|
        handles.len() == resolve_stages(runner).len() && #[trigger] were_served(
            perform,
            resolve_stages(runner),
            handles,
            from,
            to,
        )
}

/// The device of a shard of a runner was not found; those before it were.
pub open spec fn devices_were_lost<
    D,
    P: Fn(D, &VulkanDistributedExecutionRequest) -> (D, Result<u64, String>),
>(
    perform: P,
    runner: VulkanDistributedDispatchRunnerModel,
    text: Seq<char>,
    from: D,
    to: D,
) -> bool {
    let stages = resolve_stages(runner);
    exists|handles: Seq<u64>, at: D|
        handles.len() < stages.len() && #[trigger] were_served(
            perform,
            stages,
            handles,
            from,
            at,
        ) && stage_failed(perform, stages[handles.len() as int], text, at, to)
}

/// All gates of the shards of a runner gave these answers.
pub open spec fn gates_answered<
    D,
    M: Fn(D, &String, u64) -> (D, Result<MissReply, String>),
>(
    resolve_miss: M,
    runner: VulkanDistributedDispatchRunnerModel,
    replies: Seq<MissReply>,
    from: D,
    to: D,
) -> bool {
    let gates = residency_gates(runner.shards);
    replies.len() == gates.len() && misses_gave(resolve_miss, gates, replies, from, to)
}

/// What the gates answered leads to the outcome: nothing where nothing is missing, else
/// what recovering comes to.
pub open spec fn answers_led_to<
    D,
    P: Fn(D, &VulkanDistributedExecutionRequest) -> (D, Result<u64, String>),
>(
    perform: P,
    runners: VulkanDistributedDispatchRunnersModel,
    runner: VulkanDistributedDispatchRunnerModel,
    owner_device_id: Seq<char>,
    dispatch_index: usize,
    kind: VulkanDistributedDispatchSequenceKind,
    replies: Seq<MissReply>,
    outcome: Result<
        Option<VulkanDistributedResolvedResidencyFault>,
        VulkanDistributedDispatchRunnerError,
    >,
    from: D,
    to: D,
) -> bool {
    let misses = resolved_misses(residency_gates(runner.shards), replies);
    let plan = recovery_plan(runners.transaction_predicates, runner, misses, kind);
    if misses.len() == 0 {
        from == to && outcome is Ok && outcome->Ok_0 is None
    } else {
        match outcome {
            Ok(fault) => recovery_can_lead_to(
                perform,
                plan,
                Ok::<(), VulkanDistributedDispatchRunnerError>(()),
                from,
                to,
            ) && fault is Some && fault->0.deep_view() == (
            VulkanDistributedResolvedResidencyFaultModel {
                owner_device_id,
                dispatch_index,
                misses,
            }),
            Err(error) => recovery_can_lead_to(
                perform,
                plan,
                Err::<(), VulkanDistributedDispatchRunnerError>(error),
                from,
                to,
            ),
        }
    }
}

/// Some answers of devices to a recovery lead to the outcome.
pub open spec fn recovery_can_lead_to<
    D,
    P: Fn(D, &VulkanDistributedExecutionRequest) -> (D, Result<u64, String>),
>(
    perform: P,
    plan: ExecutionStagesModel,
    outcome: Result<(), VulkanDistributedDispatchRunnerError>,
    from: D,
    to: D,
) -> bool {
    exists|handles: Seq<u64>| #[trigger]
        recovery_led_to(perform, plan, handles, outcome, from, to)
}

/// What finding and recovering missing resources comes to: an error of finding a
/// device, of a gate or of the recovery, nothing where nothing was missing, or what
/// was missing.
pub open spec fn resolution_led_to<
    D,
    P: Fn(D, &VulkanDistributedExecutionRequest) -> (D, Result<u64, String>),
    M: Fn(D, &String, u64) -> (D, Result<MissReply, String>),
>(
    perform: P,
    resolve_miss: M,
    runners: VulkanDistributedDispatchRunnersModel,
    runner: VulkanDistributedDispatchRunnerModel,
    owner_device_id: Seq<char>,
    dispatch_index: usize,
    kind: VulkanDistributedDispatchSequenceKind,
    outcome: Result<
        Option<VulkanDistributedResolvedResidencyFault>,
        VulkanDistributedDispatchRunnerError,
    >,
    from: D,
    to: D,
) -> bool {
    let gates = residency_gates(runner.shards);
    ||| outcome is Err && devices_were_lost(perform, runner, outcome->Err_0.0@, from, to)
    ||| outcome is Err && exists|found: D, replies: Seq<MissReply>| #[trigger]
        gate_failed(resolve_miss, gates, replies, outcome->Err_0, found, to)
            && devices_were_found(perform, runner, from, found)
    ||| exists|found: D, replies: Seq<MissReply>, asked: D| #[trigger]
        gates_answered(resolve_miss, runner, replies, found, asked) && devices_were_found(
            perform,
            runner,
            from,
            found,
        ) && answers_led_to(
            perform,
            runners,
            runner,
            owner_device_id,
            dispatch_index,
            kind,
            replies,
            outcome,
            asked,
            to,
        )
}

/// Some answers that the devices can give lead to the outcome of finding and
/// recovering missing resources.
pub open spec fn resolution_can_give<
    D,
    P: Fn(D, &VulkanDistributedExecutionRequest) -> (D, Result<u64, String>),
    M: Fn(D, &String, u64) -> (D, Result<MissReply, String>),
>(
    perform: P,
    resolve_miss: M,
    runners: VulkanDistributedDispatchRunnersModel,
    owner_device_id: Seq<char>,
    dispatch_index: usize,
    kind: VulkanDistributedDispatchSequenceKind,
    outcome: Result<
        Option<VulkanDistributedResolvedResidencyFault>,
        VulkanDistributedDispatchRunnerError,
    >,
    from: D,
    to: D,
) -> bool {
    match find_from(runners.dispatches, 0, leads(owner_device_id, dispatch_index)) {
        None => from == to && outcome is Err && outcome->Err_0.0@ == missing_dispatch_text(
            owner_device_id,
            dispatch_index,
        ),
        Some(runner) => resolution_led_to(
            perform,
            resolve_miss,
            runners,
            runner,
            owner_device_id,
            dispatch_index,
            kind,
            outcome,
            from,
            to,
        ),
    }
}

/// What is missing for a runner may be found and recovered: first the devices are found,
/// then the gates are asked, and only where something is missing the recovery is made.
pub open spec fn runner_can_be_resolved<
    D,
    P: Fn(D, &VulkanDistributedExecutionRequest) -> (D, Result<u64, String>),
    M: Fn(D, &String, u64) -> (D, Result<MissReply, String>),
>(
    perform: P,
    resolve_miss: M,
    predicates: Map<Seq<char>, VulkanResidentBuffer>,
    runner: VulkanDistributedDispatchRunnerModel,
    kind: VulkanDistributedDispatchSequenceKind,
    from: D,
) -> bool {
    let gates = residency_gates(runner.shards);
    &&& stages_can_be_asked(perform, resolve_stages(runner), from)
    &&& forall|found: D| #[trigger]
        devices_were_found(perform, runner, from, found) ==> gates_can_be_asked(
            resolve_miss,
            gates,
            found,
        ) && forall|replies: Seq<MissReply>, asked: D| #[trigger]
            gates_answered(resolve_miss, runner, replies, found, asked) && resolved_misses(
                gates,
                replies,
            ).len() > 0 ==> recovery_can_be_asked(
                perform,
                stages_of(
                    recovery_plan(predicates, runner, resolved_misses(gates, replies), kind),
                ),
                asked,
            )
}

/// What is missing for an island may be found and recovered. Without such an island
/// nothing is asked.
pub open spec fn resolution_can_be_asked<
    D,
    P: Fn(D, &VulkanDistributedExecutionRequest) -> (D, Result<u64, String>),
    M: Fn(D, &String, u64) -> (D, Result<MissReply, String>),
>(
    perform: P,
    resolve_miss: M,
    runners: VulkanDistributedDispatchRunnersModel,
    owner_device_id: Seq<char>,
    dispatch_index: usize,
    kind: VulkanDistributedDispatchSequenceKind,
    from: D,
) -> bool {
    match find_from(runners.dispatches, 0, leads(owner_device_id, dispatch_index)) {
        None => true,
        Some(runner) => runner_can_be_resolved(
            perform,
            resolve_miss,
            runners.transaction_predicates,
            runner,
            kind,
            from,
        ),
    }
}

/// An island may be waited for and, once waiting succeeded, recovered. Without such an
/// island nothing is asked.
pub open spec fn waiting_can_be_asked<
    D,
    P: Fn(D, &VulkanDistributedExecutionRequest) -> (D, Result<u64, String>),
    M: Fn(D, &String, u64) -> (D, Result<MissReply, String>),
>(
    perform: P,
    resolve_miss: M,
    runners: VulkanDistributedDispatchRunnersModel,
    owner_device_id: Seq<char>,
    dispatch_index: usize,
    kind: VulkanDistributedDispatchSequenceKind,
    from: D,
) -> bool {
    match find_from(runners.dispatches, 0, leads(owner_device_id, dispatch_index)) {
        None => true,
        Some(runner) => {
            &&& waits_can_be_asked(perform, stages_of(waiting_plan(runner, kind)), from)
            &&& forall|at: D| #[trigger]
                waiting_succeeded(perform, waiting_plan(runner, kind), from, at)
                    ==> resolution_can_be_asked(
                    perform,
                    resolve_miss,
                    runners,
                    owner_device_id,
                    dispatch_index,
                    kind,
                    at,
                )
        },
    }
}

/// Finds the devices of a runner's shards.
fn resolve_shard_devices<
    D,
    P: Fn(D, &VulkanDistributedExecutionRequest) -> (D, Result<u64, String>),
>(
    runner: &VulkanDistributedDispatchRunner,
    devices: D,
    perform: &P,
) -> (result: (Result<(), VulkanDistributedDispatchRunnerError>, D))
    requires
        stages_can_be_asked(*perform, resolve_stages(runner.deep_view()), devices),
    ensures
        match result.0 {
            Ok(_) => devices_were_found(*perform, runner.deep_view(), devices, result.1),
            Err(error) => devices_were_lost(
                *perform,
                runner.deep_view(),
                error.0@,
                devices,
                result.1,
            ),
        },
{
    let stages = list_resolve_stages(runner);
    let ghost all = stages.deep_view();
    let ghost mut handles: Seq<u64> = Seq::empty();
    let ghost from = devices;
    let mut current = devices;
    for index in 0..stages.len()
        invariant
            stages_can_be_asked(*perform, all, from),
            from == devices,
            all == stages.deep_view(),
            all == resolve_stages(runner.deep_view()),
            handles.len() == index,
            were_served(*perform, all, handles, from, current),
    {
        let stage = &stages[index];
        assert(all[index as int] == stage.deep_view());
        let ghost at = current;
        let (left, reply) = perform(current, &stage.request);
        current = left;
        assert(call_ensures(*perform, (at, &stage.request), (current, reply)));
        assert(execution_gave(*perform, at, all[index as int].request, current, reply));
        match reply {
            Err(reason) => {
                let failed: Result<(), VulkanDistributedDispatchRunnerError> = runner_fault(
                    join2(stage.failure.as_str(), reason.as_str()),
                );
                assert(execution_gave(
                    *perform,
                    at,
                    all[index as int].request,
                    current,
                    Err::<u64, String>(reason),
                ));
                assert(stage_failed(*perform, all[index as int], failed->Err_0.0@, at, current));
                return (failed, current);
            },
            Ok(handle) => {
                proof {
                    lemma_served_step(*perform, all, handles, handle, from, at, current);
                    handles = handles.push(handle);
                }
            },
        }
    }
    (Ok(()), current)
}

impl VulkanDistributedDispatchRunners {
    /// Finds what the gates of an island found missing and, where something was, lets
    /// the affected shards and the owner run again.
    pub fn resolve_completed_residency_fault<
        D,
        P: Fn(D, &VulkanDistributedExecutionRequest) -> (D, Result<u64, String>),
        M: Fn(D, &String, u64) -> (D, Result<MissReply, String>),
    >(
        &self,
        owner_device_id: &str,
        dispatch_index: usize,
        sequence_kind: VulkanDistributedDispatchSequenceKind,
        devices: D,
        perform: &P,
        resolve_miss: &M,
    ) -> (result: (
        Result<
            Option<VulkanDistributedResolvedResidencyFault>,
            VulkanDistributedDispatchRunnerError,
        >,
        D,
    ))
        requires
            runners_are_sound(self.deep_view()),
            resolution_can_be_asked(
                *perform,
                *resolve_miss,
                self.deep_view(),
                owner_device_id@,
                dispatch_index,
                sequence_kind,
                devices,
            ),
        ensures
            resolution_can_give(
                *perform,
                *resolve_miss,
                self.deep_view(),
                owner_device_id@,
                dispatch_index,
                sequence_kind,
                result.0,
                devices,
                result.1,
            ),
    {
        match self.dispatch(owner_device_id, dispatch_index) {
            None => (runner_fault(missing_dispatch(owner_device_id, dispatch_index)), devices),
            Some(runner) => self.resolve_runner(
                runner,
                owner_device_id,
                dispatch_index,
                sequence_kind,
                devices,
                perform,
                resolve_miss,
            ),
        }
    }

    fn resolve_runner<
        D,
        P: Fn(D, &VulkanDistributedExecutionRequest) -> (D, Result<u64, String>),
        M: Fn(D, &String, u64) -> (D, Result<MissReply, String>),
    >(
        &self,
        runner: &VulkanDistributedDispatchRunner,
        owner_device_id: &str,
        dispatch_index: usize,
        sequence_kind: VulkanDistributedDispatchSequenceKind,
        devices: D,
        perform: &P,
        resolve_miss: &M,
    ) -> (result: (
        Result<
            Option<VulkanDistributedResolvedResidencyFault>,
            VulkanDistributedDispatchRunnerError,
        >,
        D,
    ))
        requires
            runner_can_be_resolved(
                *perform,
                *resolve_miss,
                self.deep_view().transaction_predicates,
                runner.deep_view(),
                sequence_kind,
                devices,
            ),
        ensures
            resolution_led_to(
                *perform,
                *resolve_miss,
                self.deep_view(),
                runner.deep_view(),
                owner_device_id@,
                dispatch_index,
                sequence_kind,
                result.0,
                devices,
                result.1,
            ),
    {
        let ghost model = runner.deep_view();
        let (resolved, found) = resolve_shard_devices(runner, devices, perform);
        let ghost found_at = found;
        match resolved {
            Err(error) => {
                return (Err(error), found);
            },
            Ok(_) => {},
        }
        let gates = list_residency_gates(&runner.shards);
        assert(gates.deep_view().len() == gates.len());
        let (answered, asked, replies) = ask_gates(&gates, found, resolve_miss);
        let ghost asked_at = asked;
        let misses = match answered {
            Err(error) => {
                return (Err(error), asked);
            },
            Ok(misses) => misses,
        };
        assert(gates_answered(*resolve_miss, model, replies@, found_at, asked_at));
        assert(misses.deep_view().len() == misses.len());
        if misses.len() == 0 {
            let nothing: Result<
                Option<VulkanDistributedResolvedResidencyFault>,
                VulkanDistributedDispatchRunnerError,
            > = Ok(None);
            assert(answers_led_to(
                *perform,
                self.deep_view(),
                model,
                owner_device_id@,
                dispatch_index,
                sequence_kind,
                replies@,
                nothing,
                asked_at,
                asked_at,
            ));
            return (nothing, asked);
        }
        let (stages, ended) = plan_recovery(
            &self.transaction_predicates,
            runner,
            &misses,
            sequence_kind,
        );
        let ghost plan = recovery_plan(
            self.deep_view().transaction_predicates,
            model,
            misses.deep_view(),
            sequence_kind,
        );
        let (recovered, left, handles) = perform_recovery(
            &stages,
            ended,
            asked,
            perform,
            Ghost(plan),
        );
        assert(recovery_led_to(*perform, plan, handles@, recovered, asked_at, left));
        let outcome: Result<
            Option<VulkanDistributedResolvedResidencyFault>,
            VulkanDistributedDispatchRunnerError,
        > = match recovered {
            Err(error) => Err(error),
            Ok(unit) => {
                assert(unit == ());
                Ok(
                    Some(
                        VulkanDistributedResolvedResidencyFault {
                            owner_device_id: owner_device_id.to_owned(),
                            dispatch_index,
                            misses,
                        },
                    ),
                )
            },
        };
        assert(answers_led_to(
            *perform,
            self.deep_view(),
            model,
            owner_device_id@,
            dispatch_index,
            sequence_kind,
            replies@,
            outcome,
            asked_at,
            left,
        ));
        (outcome, left)
    }

    /// Waits for the island of an owner that starts with a dispatch, and lets it run
    /// again where resources were missing.
    pub fn wait_dispatch<
        D,
        P: Fn(D, &VulkanDistributedExecutionRequest) -> (D, Result<u64, String>),
        M: Fn(D, &String, u64) -> (D, Result<MissReply, String>),
    >(
        &self,
        owner_device_id: &str,
        dispatch_index: usize,
        sequence_kind: VulkanDistributedDispatchSequenceKind,
        devices: D,
        perform: &P,
        resolve_miss: &M,
    ) -> (result: (Result<(), VulkanDistributedDispatchRunnerError>, D))
        requires
            runners_are_sound(self.deep_view()),
            waiting_can_be_asked(
                *perform,
                *resolve_miss,
                self.deep_view(),
                owner_device_id@,
                dispatch_index,
                sequence_kind,
                devices,
            ),
        ensures
            waiting_can_give(
                *perform,
                *resolve_miss,
                self.deep_view(),
                owner_device_id@,
                dispatch_index,
                sequence_kind,
                result.0,
                devices,
                result.1,
            ),
    {
        let ghost all = self.deep_view().dispatches;
        let ghost condition = leads(owner_device_id@, dispatch_index);
        match self.dispatch(owner_device_id, dispatch_index) {
            None => (runner_fault(missing_dispatch(owner_device_id, dispatch_index)), devices),
            Some(runner) => {
                proof {
                    lemma_found_satisfies(all, 0, condition);
                }
                let ghost plan = waiting_plan(runner.deep_view(), sequence_kind);
                let ghost from = devices;
                let (stages, ended) = plan_waiting(runner, sequence_kind);
                let (waited, at, replies) = perform_waiting(
                    &stages,
                    ended,
                    devices,
                    perform,
                    Ghost(plan),
                );
                let ghost waited_at = at;
                assert(waiting_led_to(*perform, plan, replies@, waited, from, waited_at));
                match waited {
                    Err(error) => (Err(error), at),
                    Ok(unit) => {
                        assert(unit == ());
                        assert(waiting_succeeded(*perform, plan, from, waited_at));
                        let (resolved, left) = self.resolve_completed_residency_fault(
                            owner_device_id,
                            dispatch_index,
                            sequence_kind,
                            at,
                            perform,
                            resolve_miss,
                        );
                        assert(resolution_can_give(
                            *perform,
                            *resolve_miss,
                            self.deep_view(),
                            owner_device_id@,
                            dispatch_index,
                            sequence_kind,
                            resolved,
                            waited_at,
                            left,
                        ));
                        match resolved {
                            Err(error) => (Err(error), left),
                            Ok(_) => (Ok(()), left),
                        }
                    },
                }
            },
        }
    }
}

/// Some answers of the devices let waiting succeed.
pub open spec fn waiting_succeeded<
    D,
    P: Fn(D, &VulkanDistributedExecutionRequest) -> (D, Result<u64, String>),
>(
    perform: P,
    plan: ExecutionStagesModel,
    from: D,
    to: D,
) -> bool {
    exists|replies: Seq<Result<u64, String>>| #[trigger]
        waiting_led_to(
            perform,
            plan,
            replies,
            Ok::<(), VulkanDistributedDispatchRunnerError>(()),
            from,
            to,
        )
}

/// Some answers of the devices let waiting fail with the error.
pub open spec fn waiting_failed<
    D,
    P: Fn(D, &VulkanDistributedExecutionRequest) -> (D, Result<u64, String>),
>(
    perform: P,
    plan: ExecutionStagesModel,
    error: VulkanDistributedDispatchRunnerError,
    from: D,
    to: D,
) -> bool {
    exists|replies: Seq<Result<u64, String>>| #[trigger]
        waiting_led_to(
            perform,
            plan,
            replies,
            Err::<(), VulkanDistributedDispatchRunnerError>(error),
            from,
            to,
        )
}

/// Some answers that the devices can give lead to the outcome of waiting for an island
/// and, once it is done, of recovering missing resources.
pub open spec fn waiting_can_give<
    D,
    P: Fn(D, &VulkanDistributedExecutionRequest) -> (D, Result<u64, String>),
    M: Fn(D, &String, u64) -> (D, Result<MissReply, String>),
>(
    perform: P,
    resolve_miss: M,
    runners: VulkanDistributedDispatchRunnersModel,
    owner_device_id: Seq<char>,
    dispatch_index: usize,
    kind: VulkanDistributedDispatchSequenceKind,
    outcome: Result<(), VulkanDistributedDispatchRunnerError>,
    from: D,
    to: D,
) -> bool {
    match find_from(runners.dispatches, 0, leads(owner_device_id, dispatch_index)) {
        None => from == to && outcome is Err && outcome->Err_0.0@ == missing_dispatch_text(
            owner_device_id,
            dispatch_index,
        ),
        Some(runner) => {
            let plan = waiting_plan(runner, kind);
            match outcome {
                Ok(_) => exists|at: D, found: Option<VulkanDistributedResolvedResidencyFault>|
                    #[trigger]
                    resolution_can_give(
                        perform,
                        resolve_miss,
                        runners,
                        owner_device_id,
                        dispatch_index,
                        kind,
                        Ok::<
                            Option<VulkanDistributedResolvedResidencyFault>,
                            VulkanDistributedDispatchRunnerError,
                        >(found),
                        at,
                        to,
                    ) && waiting_succeeded(perform, plan, from, at),
                Err(error) => waiting_failed(perform, plan, error, from, to) || exists|at: D|
                    #[trigger]
                    waiting_succeeded(perform, plan, from, at) && resolution_can_give(
                        perform,
                        resolve_miss,
                        runners,
                        owner_device_id,
                        dispatch_index,
                        kind,
                        Err::<
                            Option<VulkanDistributedResolvedResidencyFault>,
                            VulkanDistributedDispatchRunnerError,
                        >(error),
                        at,
                        to,
                    ),
            }
        },
    }
}

/// The submission of an island that runs on its own.
pub open spec fn own_submission(dependency_value: u64) -> VulkanDistributedDispatchSubmission {
    VulkanDistributedDispatchSubmission {
        dependency_value,
        consume_owner_ready_signal: false,
        prepare_owner_continuation: true,
        signal_completion: true,
        sequence_kind: VulkanDistributedDispatchSequenceKind::Direct,
    }
}

/// Some answers that the devices can give let a submission succeed.
pub open spec fn submission_can_succeed<
    D,
    P: Fn(D, &VulkanDistributedExecutionRequest) -> (D, Result<u64, String>),
>(
    perform: P,
    runners: VulkanDistributedDispatchRunnersModel,
    owner_device_id: Seq<char>,
    dispatch_index: usize,
    submission: VulkanDistributedDispatchSubmission,
    from: D,
    to: D,
) -> bool {
    exists|run: VulkanDistributedDispatchRun| #[trigger]
        submission_can_give(
            perform,
            runners,
            owner_device_id,
            dispatch_index,
            submission,
            Ok::<VulkanDistributedDispatchRun, VulkanDistributedDispatchRunnerError>(run),
            from,
            to,
        )
}

/// What running an island on its own comes to: it is submitted, and once this succeeded
/// waited for.
pub open spec fn run_can_give<
    D,
    P: Fn(D, &VulkanDistributedExecutionRequest) -> (D, Result<u64, String>),
    M: Fn(D, &String, u64) -> (D, Result<MissReply, String>),
>(
    perform: P,
    resolve_miss: M,
    before: VulkanDistributedDispatchRunnersModel,
    after: VulkanDistributedDispatchRunnersModel,
    owner_device_id: Seq<char>,
    dispatch_index: usize,
    value: Result<u64, VulkanDistributedDispatchRunnerError>,
    outcome: Result<VulkanDistributedDispatchRun, VulkanDistributedDispatchRunnerError>,
    from: D,
    to: D,
) -> bool {
    let direct = VulkanDistributedDispatchSequenceKind::Direct;
    &&& reservation(before, owner_device_id, dispatch_index, after, value)
    &&& match value {
        Err(error) => from == to && outcome is Err && outcome->Err_0 == error,
        Ok(value) => match outcome {
            Ok(run) => exists|at: D| #[trigger]
                submission_can_give(
                    perform,
                    after,
                    owner_device_id,
                    dispatch_index,
                    own_submission(value),
                    outcome,
                    from,
                    at,
                ) && waiting_can_give(
                    perform,
                    resolve_miss,
                    after,
                    owner_device_id,
                    dispatch_index,
                    direct,
                    Ok::<(), VulkanDistributedDispatchRunnerError>(()),
                    at,
                    to,
                ),
            Err(error) => submission_can_give(
                perform,
                after,
                owner_device_id,
                dispatch_index,
                own_submission(value),
                outcome,
                from,
                to,
            ) || exists|at: D| #[trigger]
                submission_can_succeed(
                    perform,
                    after,
                    owner_device_id,
                    dispatch_index,
                    own_submission(value),
                    from,
                    at,
                ) && waiting_can_give(
                    perform,
                    resolve_miss,
                    after,
                    owner_device_id,
                    dispatch_index,
                    direct,
                    Err::<(), VulkanDistributedDispatchRunnerError>(error),
                    at,
                    to,
                ),
        },
    }
}

/// An island may be run on its own: once a value was given out it may be submitted, and
/// once it was submitted waited for. Where no value is given out nothing is asked.
pub open spec fn run_can_be_asked<
    D,
    P: Fn(D, &VulkanDistributedExecutionRequest) -> (D, Result<u64, String>),
    M: Fn(D, &String, u64) -> (D, Result<MissReply, String>),
>(
    perform: P,
    resolve_miss: M,
    before: VulkanDistributedDispatchRunnersModel,
    owner_device_id: Seq<char>,
    dispatch_index: usize,
    from: D,
) -> bool {
    forall|after: VulkanDistributedDispatchRunnersModel, value: u64| #[trigger]
        reservation(
            before,
            owner_device_id,
            dispatch_index,
            after,
            Ok::<u64, VulkanDistributedDispatchRunnerError>(value),
        ) ==> {
            &&& submission_can_be_asked(
                perform,
                after,
                owner_device_id,
                dispatch_index,
                own_submission(value),
                from,
            )
            &&& forall|at: D| #[trigger]
                submission_can_succeed(
                    perform,
                    after,
                    owner_device_id,
                    dispatch_index,
                    own_submission(value),
                    from,
                    at,
                ) ==> waiting_can_be_asked(
                    perform,
                    resolve_miss,
                    after,
                    owner_device_id,
                    dispatch_index,
                    VulkanDistributedDispatchSequenceKind::Direct,
                    at,
                )
        }
}

/// Giving out a value leaves the runners sound.
proof fn lemma_reservation_keeps_runners(
    before: VulkanDistributedDispatchRunnersModel,
    owner_device_id: Seq<char>,
    dispatch_index: usize,
    after: VulkanDistributedDispatchRunnersModel,
    outcome: Result<u64, VulkanDistributedDispatchRunnerError>,
)
    requires
        runners_are_sound(before),
        reservation(before, owner_device_id, dispatch_index, after, outcome),
    ensures
        runners_are_sound(after),
{
    let condition = leads(owner_device_id, dispatch_index);
    lemma_found_at(before.dispatches, 0, condition);
    assert forall|i: int| 0 <= i < after.dispatches.len() implies (
    #[trigger] after.dispatches[i]).planned.dispatches.len() > 0 by {
        assert(after.dispatches[i].planned == before.dispatches[i].planned);
        assert(before.dispatches[i].planned.dispatches.len() > 0);
    }
}

/// Some value of the semaphores leads to the outcome of running an island.
pub open spec fn running_can_give<
    D,
    P: Fn(D, &VulkanDistributedExecutionRequest) -> (D, Result<u64, String>),
    M: Fn(D, &String, u64) -> (D, Result<MissReply, String>),
>(
    perform: P,
    resolve_miss: M,
    before: VulkanDistributedDispatchRunnersModel,
    after: VulkanDistributedDispatchRunnersModel,
    owner_device_id: Seq<char>,
    dispatch_index: usize,
    outcome: Result<VulkanDistributedDispatchRun, VulkanDistributedDispatchRunnerError>,
    from: D,
    to: D,
) -> bool {
    exists|value: Result<u64, VulkanDistributedDispatchRunnerError>| #[trigger]
        run_can_give(
            perform,
            resolve_miss,
            before,
            after,
            owner_device_id,
            dispatch_index,
            value,
            outcome,
            from,
            to,
        )
}

impl VulkanDistributedDispatchRunners {
    /// Runs an island on its own: gives out a value, submits it and waits for it.
    pub fn run_dispatch<
        D,
        P: Fn(D, &VulkanDistributedExecutionRequest) -> (D, Result<u64, String>),
        M: Fn(D, &String, u64) -> (D, Result<MissReply, String>),
    >(
        &mut self,
        owner_device_id: &str,
        dispatch_index: usize,
        devices: D,
        perform: &P,
        resolve_miss: &M,
    ) -> (result: (Result<VulkanDistributedDispatchRun, VulkanDistributedDispatchRunnerError>, D))
        requires
            runners_are_sound(old(self).deep_view()),
            run_can_be_asked(
                *perform,
                *resolve_miss,
                old(self).deep_view(),
                owner_device_id@,
                dispatch_index,
                devices,
            ),
        ensures
            running_can_give(
                *perform,
                *resolve_miss,
                old(self).deep_view(),
                final(self).deep_view(),
                owner_device_id@,
                dispatch_index,
                result.0,
                devices,
                result.1,
            ),
    {
        let ghost before = self.deep_view();
        let ghost from = devices;
        let value = self.reserve_dependency_value(owner_device_id, dispatch_index);
        let ghost after = self.deep_view();
        let ghost given = value;
        proof {
            lemma_reservation_keeps_runners(
                before,
                owner_device_id@,
                dispatch_index,
                after,
                given,
            );
        }
        let dependency_value: u64 = match value {
            Err(error) => {
                let failed: Result<
                    VulkanDistributedDispatchRun,
                    VulkanDistributedDispatchRunnerError,
                > = Err(error);
                assert(run_can_give(
                    *perform,
                    *resolve_miss,
                    before,
                    after,
                    owner_device_id@,
                    dispatch_index,
                    given,
                    failed,
                    from,
                    from,
                ));
                return (failed, devices);
            },
            Ok(value) => value,
        };
        let (submitted, at) = self.submit_dispatch_with_device_dependencies(
            owner_device_id,
            dispatch_index,
            VulkanDistributedDispatchSubmission {
                dependency_value,
                consume_owner_ready_signal: false,
                prepare_owner_continuation: true,
                signal_completion: true,
                sequence_kind: VulkanDistributedDispatchSequenceKind::Direct,
            },
            devices,
            perform,
        );
        let ghost submitted_at = at;
        assert(submission_can_give(
            *perform,
            after,
            owner_device_id@,
            dispatch_index,
            own_submission(dependency_value),
            submitted,
            from,
            submitted_at,
        ));
        match submitted {
            Err(error) => {
                let failed: Result<
                    VulkanDistributedDispatchRun,
                    VulkanDistributedDispatchRunnerError,
                > = Err(error);
                assert(run_can_give(
                    *perform,
                    *resolve_miss,
                    before,
                    after,
                    owner_device_id@,
                    dispatch_index,
                    given,
                    failed,
                    from,
                    submitted_at,
                ));
                (failed, at)
            },
            Ok(run) => {
                assert(submission_can_succeed(
                    *perform,
                    after,
                    owner_device_id@,
                    dispatch_index,
                    own_submission(dependency_value),
                    from,
                    submitted_at,
                ));
                let (waited, left) = self.wait_dispatch(
                    owner_device_id,
                    dispatch_index,
                    run.sequence_kind,
                    at,
                    perform,
                    resolve_miss,
                );
                let done: Result<
                    VulkanDistributedDispatchRun,
                    VulkanDistributedDispatchRunnerError,
                > = match waited {
                    Err(error) => Err(error),
                    Ok(unit) => {
                        assert(unit == ());
                        Ok(run)
                    },
                };
                assert(run_can_give(
                    *perform,
                    *resolve_miss,
                    before,
                    after,
                    owner_device_id@,
                    dispatch_index,
                    given,
                    done,
                    from,
                    left,
                ));
                (done, left)
            },
        }
    }
}

} // verus!
