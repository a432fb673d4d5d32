//! The islands of a plan, ready to run.
use vstd::prelude::*;

use crate::activation_lookups::found_as;
use crate::dispatch_shards::{VulkanDistributedDispatchShard, VulkanDistributedDispatchShardModel};
use crate::errors::VulkanDistributedDispatchRunnerError;
use crate::execution_plans::{
    VulkanDistributedDispatchPlan, VulkanDistributedDispatchPlanModel,
    VulkanDistributedExecutionPlan, VulkanDistributedExecutionPlanModel,
    VulkanPhysicalExecutionIslandPlan, VulkanPhysicalExecutionIslandPlanModel,
};
use crate::ordered::OrderedMap;
use crate::queue_dependencies::{
    advance_fault, reserved, VulkanDistributedDependencyClock,
    VulkanDistributedQueueSynchronization, VulkanDistributedQueueSynchronizationModel,
    VulkanTimelineSemaphore, VulkanTimelineSemaphorePoint,
};
use crate::resident::VulkanResidentBuffer;
use crate::runner_bindings::{
    runner_agrees, runner_fault, VulkanDistributedRunnerInputs, VulkanDistributedRunnerInputsModel,
};
use crate::runner_stages::{
    creation_stages, islands_are_sound, list_creation_stages, CountedStagesModel,
    VulkanDistributedDeviceRequest, VulkanDistributedDeviceRequestModel,
    VulkanDistributedRunnerStage, VulkanDistributedRunnerStageModel, VulkanDistributedStagePlace,
};
use crate::sequences::{append, checked_sum, find_from, index_from, is_checked, sum_of};
use crate::text::{debug_text, decimal, decimal_text, join2, join4, quoted};
use crate::values::PlainValue;

verus! {

/// What a device gave: a handle of what it made, or the semaphores between an owner
/// and a helper.
#[derive(Debug, PartialEq, Eq)]
pub enum VulkanDistributedDeviceObject {
    Handle { handle: u64 },
    Synchronization { synchronization: VulkanDistributedQueueSynchronization },
}

/// The model of [`VulkanDistributedDeviceObject`].
pub enum VulkanDistributedDeviceObjectModel {
    Handle { handle: u64 },
    Synchronization { synchronization: VulkanDistributedQueueSynchronizationModel },
}

impl DeepView for VulkanDistributedDeviceObject {
    type V = VulkanDistributedDeviceObjectModel;

    open spec fn deep_view(&self) -> VulkanDistributedDeviceObjectModel {
        match self {
            VulkanDistributedDeviceObject::Handle { handle } =>
                VulkanDistributedDeviceObjectModel::Handle {
                    handle: handle.deep_view(),
                },
            VulkanDistributedDeviceObject::Synchronization { synchronization } =>
                VulkanDistributedDeviceObjectModel::Synchronization {
                    synchronization: synchronization.deep_view(),
                },
        }
    }
}

impl Clone for VulkanDistributedDeviceObject {
    fn clone(&self) -> (copy: Self)
        ensures
            copy.deep_view() == self.deep_view(),
    {
        self.duplicate()
    }
}

impl PlainValue for VulkanDistributedDeviceObject {
    fn duplicate(&self) -> (copy: Self) {
        match self {
            VulkanDistributedDeviceObject::Handle { handle } =>
                VulkanDistributedDeviceObject::Handle {
                    handle: handle.duplicate(),
                },
            VulkanDistributedDeviceObject::Synchronization { synchronization } =>
                VulkanDistributedDeviceObject::Synchronization {
                    synchronization: synchronization.duplicate(),
                },
        }
    }

    fn same(&self, other: &Self) -> (equal: bool) {
        match (self, other) {
            (
                VulkanDistributedDeviceObject::Handle { handle: left_handle },
                VulkanDistributedDeviceObject::Handle { handle: right_handle },
            ) => left_handle.same(right_handle),
            (
                VulkanDistributedDeviceObject::Synchronization {
                    synchronization: left_synchronization,
                },
                VulkanDistributedDeviceObject::Synchronization {
                    synchronization: right_synchronization,
                },
            ) => left_synchronization.same(right_synchronization),
            _ => false,
        }
    }
}

/// The kernels of a shard of an island, as its device has prepared them.
#[derive(Debug, PartialEq, Eq)]
pub struct VulkanDistributedDispatchShardRunner {
    pub device_id: String,
    pub planned: Vec<VulkanDistributedDispatchShard>,
    pub resident_dispatches: Vec<u64>,
    pub selected_resource_gates: Vec<Vec<u64>>,
    pub sequence: u64,
    pub feedback_sequence: Option<u64>,
}

/// The model of [`VulkanDistributedDispatchShardRunner`].
pub struct VulkanDistributedDispatchShardRunnerModel {
    pub device_id: Seq<char>,
    pub planned: Seq<VulkanDistributedDispatchShardModel>,
    pub resident_dispatches: Seq<u64>,
    pub selected_resource_gates: Seq<Seq<u64>>,
    pub sequence: u64,
    pub feedback_sequence: Option<u64>,
}

impl DeepView for VulkanDistributedDispatchShardRunner {
    type V = VulkanDistributedDispatchShardRunnerModel;

    open spec fn deep_view(&self) -> VulkanDistributedDispatchShardRunnerModel {
        VulkanDistributedDispatchShardRunnerModel {
            device_id: self.device_id.deep_view(),
            planned: self.planned.deep_view(),
            resident_dispatches: self.resident_dispatches.deep_view(),
            selected_resource_gates: self.selected_resource_gates.deep_view(),
            sequence: self.sequence.deep_view(),
            feedback_sequence: self.feedback_sequence.deep_view(),
        }
    }
}

impl Clone for VulkanDistributedDispatchShardRunner {
    fn clone(&self) -> (copy: Self)
        ensures
            copy.deep_view() == self.deep_view(),
    {
        self.duplicate()
    }
}

impl PlainValue for VulkanDistributedDispatchShardRunner {
    fn duplicate(&self) -> (copy: Self) {
        VulkanDistributedDispatchShardRunner {
            device_id: self.device_id.duplicate(),
            planned: self.planned.duplicate(),
            resident_dispatches: self.resident_dispatches.duplicate(),
            selected_resource_gates: self.selected_resource_gates.duplicate(),
            sequence: self.sequence.duplicate(),
            feedback_sequence: self.feedback_sequence.duplicate(),
        }
    }

    fn same(&self, other: &Self) -> (equal: bool) {
        self.device_id.same(&other.device_id)
            && self.planned.same(&other.planned)
            && self.resident_dispatches.same(&other.resident_dispatches)
            && self.selected_resource_gates.same(&other.selected_resource_gates)
            && self.sequence.same(&other.sequence)
            && self.feedback_sequence.same(&other.feedback_sequence)
    }
}

/// An island, ready to run.
#[derive(Debug, PartialEq, Eq)]
pub struct VulkanDistributedDispatchRunner {
    pub planned: VulkanPhysicalExecutionIslandPlan,
    pub shards: Vec<VulkanDistributedDispatchShardRunner>,
    pub helper_synchronization: Vec<VulkanDistributedQueueSynchronization>,
    pub reduction: Option<u64>,
    pub residency_commit: Option<u64>,
    pub dependency_clock: VulkanDistributedDependencyClock,
}

/// The model of [`VulkanDistributedDispatchRunner`].
pub struct VulkanDistributedDispatchRunnerModel {
    pub planned: VulkanPhysicalExecutionIslandPlanModel,
    pub shards: Seq<VulkanDistributedDispatchShardRunnerModel>,
    pub helper_synchronization: Seq<VulkanDistributedQueueSynchronizationModel>,
    pub reduction: Option<u64>,
    pub residency_commit: Option<u64>,
    pub dependency_clock: u64,
}

impl DeepView for VulkanDistributedDispatchRunner {
    type V = VulkanDistributedDispatchRunnerModel;

    open spec fn deep_view(&self) -> VulkanDistributedDispatchRunnerModel {
        VulkanDistributedDispatchRunnerModel {
            planned: self.planned.deep_view(),
            shards: self.shards.deep_view(),
            helper_synchronization: self.helper_synchronization.deep_view(),
            reduction: self.reduction.deep_view(),
            residency_commit: self.residency_commit.deep_view(),
            dependency_clock: self.dependency_clock.deep_view(),
        }
    }
}

impl Clone for VulkanDistributedDispatchRunner {
    fn clone(&self) -> (copy: Self)
        ensures
            copy.deep_view() == self.deep_view(),
    {
        self.duplicate()
    }
}

impl PlainValue for VulkanDistributedDispatchRunner {
    fn duplicate(&self) -> (copy: Self) {
        VulkanDistributedDispatchRunner {
            planned: self.planned.duplicate(),
            shards: self.shards.duplicate(),
            helper_synchronization: self.helper_synchronization.duplicate(),
            reduction: self.reduction.duplicate(),
            residency_commit: self.residency_commit.duplicate(),
            dependency_clock: self.dependency_clock.duplicate(),
        }
    }

    fn same(&self, other: &Self) -> (equal: bool) {
        self.planned.same(&other.planned)
            && self.shards.same(&other.shards)
            && self.helper_synchronization.same(&other.helper_synchronization)
            && self.reduction.same(&other.reduction)
            && self.residency_commit.same(&other.residency_commit)
            && self.dependency_clock.same(&other.dependency_clock)
    }
}

/// The islands of a plan, ready to run.
#[derive(Debug, PartialEq, Eq)]
pub struct VulkanDistributedDispatchRunners {
    pub dispatches: Vec<VulkanDistributedDispatchRunner>,
    pub dispatch_count: usize,
    pub shard_count: usize,
    pub transaction_predicates: OrderedMap<String, VulkanResidentBuffer>,
}

/// The model of [`VulkanDistributedDispatchRunners`].
pub struct VulkanDistributedDispatchRunnersModel {
    pub dispatches: Seq<VulkanDistributedDispatchRunnerModel>,
    pub dispatch_count: usize,
    pub shard_count: usize,
    pub transaction_predicates: Map<Seq<char>, VulkanResidentBuffer>,
}

impl DeepView for VulkanDistributedDispatchRunners {
    type V = VulkanDistributedDispatchRunnersModel;

    open spec fn deep_view(&self) -> VulkanDistributedDispatchRunnersModel {
        VulkanDistributedDispatchRunnersModel {
            dispatches: self.dispatches.deep_view(),
            dispatch_count: self.dispatch_count.deep_view(),
            shard_count: self.shard_count.deep_view(),
            transaction_predicates: self.transaction_predicates.deep_view(),
        }
    }
}

impl Clone for VulkanDistributedDispatchRunners {
    fn clone(&self) -> (copy: Self)
        ensures
            copy.deep_view() == self.deep_view(),
    {
        self.duplicate()
    }
}

impl PlainValue for VulkanDistributedDispatchRunners {
    fn duplicate(&self) -> (copy: Self) {
        VulkanDistributedDispatchRunners {
            dispatches: self.dispatches.duplicate(),
            dispatch_count: self.dispatch_count.duplicate(),
            shard_count: self.shard_count.duplicate(),
            transaction_predicates: self.transaction_predicates.duplicate(),
        }
    }

    fn same(&self, other: &Self) -> (equal: bool) {
        self.dispatches.same(&other.dispatches)
            && self.dispatch_count.same(&other.dispatch_count)
            && self.shard_count.same(&other.shard_count)
            && self.transaction_predicates.same(&other.transaction_predicates)
    }
}

/// What a stage asks a device to make.
#[derive(Clone, Copy, Debug, PartialEq, Eq, Structural)]
pub enum RunnerStageKind {
    Kernel,
    Gate,
    Sequence,
    Reduction,
    ResidencyCommit,
}

impl DeepView for RunnerStageKind {
    type V = RunnerStageKind;

    open spec fn deep_view(&self) -> RunnerStageKind {
        *self
    }
}

impl PlainValue for RunnerStageKind {
    fn duplicate(&self) -> (copy: Self) {
        *self
    }

    fn same(&self, other: &Self) -> (equal: bool) {
        *self == *other
    }
}

/// What a device is asked to make.
pub open spec fn stage_kind(request: VulkanDistributedDeviceRequestModel) -> Option<
    RunnerStageKind,
> {
    match request {
        VulkanDistributedDeviceRequestModel::CreateDispatch { .. } => Some(RunnerStageKind::Kernel),
        VulkanDistributedDeviceRequestModel::CreateGate { .. } => Some(RunnerStageKind::Gate),
        VulkanDistributedDeviceRequestModel::CreateSequence { .. } => Some(
            RunnerStageKind::Sequence,
        ),
        VulkanDistributedDeviceRequestModel::CreateReduction { .. } => Some(
            RunnerStageKind::Reduction,
        ),
        VulkanDistributedDeviceRequestModel::CreateResidencyCommit { .. } => Some(
            RunnerStageKind::ResidencyCommit,
        ),
        _ => None,
    }
}

fn kind_of(request: &VulkanDistributedDeviceRequest) -> (kind: Option<RunnerStageKind>)
    ensures
        kind == stage_kind(request.deep_view()),
{
    match request {
        VulkanDistributedDeviceRequest::CreateDispatch { .. } => Some(RunnerStageKind::Kernel),
        VulkanDistributedDeviceRequest::CreateGate { .. } => Some(RunnerStageKind::Gate),
        VulkanDistributedDeviceRequest::CreateSequence { .. } => Some(RunnerStageKind::Sequence),
        VulkanDistributedDeviceRequest::CreateReduction { .. } => Some(RunnerStageKind::Reduction),
        VulkanDistributedDeviceRequest::CreateResidencyCommit { .. } => Some(
            RunnerStageKind::ResidencyCommit,
        ),
        _ => None,
    }
}

/// The stage makes this kind of thing for a shard of an island, and for a dispatch of
/// it where one is given.
pub open spec fn makes(
    stage: VulkanDistributedRunnerStageModel,
    kind: RunnerStageKind,
    island: usize,
    shard: usize,
    dispatch: Option<usize>,
) -> bool {
    &&& stage_kind(stage.request) == Some(kind)
    &&& stage.place.island == island
    &&& stage.place.shard == shard
    &&& dispatch is Some ==> stage.place.dispatch == dispatch->0
}

/// The handles that devices gave for such stages, in their order.
pub open spec fn handles_of(
    stages: Seq<VulkanDistributedRunnerStageModel>,
    objects: Seq<VulkanDistributedDeviceObjectModel>,
    kind: RunnerStageKind,
    island: usize,
    shard: usize,
    dispatch: Option<usize>,
) -> Seq<u64>
    decreases objects.len(),
{
    if objects.len() == 0 {
        Seq::empty()
    } else {
        let earlier = handles_of(stages, objects.drop_last(), kind, island, shard, dispatch);
        if objects.last() is Handle && makes(
            stages[objects.len() - 1],
            kind,
            island,
            shard,
            dispatch,
        ) {
            earlier.push(objects.last()->handle)
        } else {
            earlier
        }
    }
}

/// The semaphores that devices gave for an island, in their order.
pub open spec fn synchronizations_of(
    stages: Seq<VulkanDistributedRunnerStageModel>,
    objects: Seq<VulkanDistributedDeviceObjectModel>,
    island: usize,
) -> Seq<VulkanDistributedQueueSynchronizationModel>
    decreases objects.len(),
{
    if objects.len() == 0 {
        Seq::empty()
    } else {
        let earlier = synchronizations_of(stages, objects.drop_last(), island);
        if objects.last() is Synchronization && stages[objects.len() - 1].place.island == island {
            earlier.push(objects.last()->synchronization)
        } else {
            earlier
        }
    }
}

fn list_handles(
    stages: &Vec<VulkanDistributedRunnerStage>,
    objects: &Vec<VulkanDistributedDeviceObject>,
    kind: RunnerStageKind,
    island: usize,
    shard: usize,
    dispatch: Option<usize>,
) -> (handles: Vec<u64>)
    requires
        objects.len() == stages.len(),
    ensures
        handles.deep_view() == handles_of(
            stages.deep_view(),
            objects.deep_view(),
            kind,
            island,
            shard,
            dispatch,
        ),
{
    let ghost all = objects.deep_view();
    let ghost models = stages.deep_view();
    let mut handles: Vec<u64> = Vec::new();
    assert(handles.deep_view() =~= handles_of(models, all.take(0), kind, island, shard, dispatch));
    for index in 0..objects.len()
        invariant
            objects.len() == stages.len(),
            all == objects.deep_view(),
            models == stages.deep_view(),
            handles.deep_view() == handles_of(
                models,
                all.take(index as int),
                kind,
                island,
                shard,
                dispatch,
            ),
    {
        let stage = &stages[index];
        assert(models[index as int] == stage.deep_view());
        assert(all[index as int] == objects@[index as int].deep_view());
        assert(all.take(index as int + 1).drop_last() =~= all.take(index as int));
        let fits: bool = match kind_of(&stage.request) {
            Some(found) => found == kind,
            None => false,
        };
        let dispatch_fits: bool = match dispatch {
            Some(wanted) => stage.place.dispatch == wanted,
            None => true,
        };
        match &objects[index] {
            VulkanDistributedDeviceObject::Handle { handle } => {
                if fits && stage.place.island == island && stage.place.shard == shard
                    && dispatch_fits {
                    append(&mut handles, *handle);
                }
            },
            VulkanDistributedDeviceObject::Synchronization { .. } => {},
        }
    }
    assert(all.take(all.len() as int) =~= all);
    handles
}

fn list_synchronizations(
    stages: &Vec<VulkanDistributedRunnerStage>,
    objects: &Vec<VulkanDistributedDeviceObject>,
    island: usize,
) -> (synchronizations: Vec<VulkanDistributedQueueSynchronization>)
    requires
        objects.len() == stages.len(),
    ensures
        synchronizations.deep_view() == synchronizations_of(
            stages.deep_view(),
            objects.deep_view(),
            island,
        ),
{
    let ghost all = objects.deep_view();
    let ghost models = stages.deep_view();
    let mut synchronizations: Vec<VulkanDistributedQueueSynchronization> = Vec::new();
    assert(synchronizations.deep_view() =~= synchronizations_of(models, all.take(0), island));
    for index in 0..objects.len()
        invariant
            objects.len() == stages.len(),
            all == objects.deep_view(),
            models == stages.deep_view(),
            synchronizations.deep_view() == synchronizations_of(
                models,
                all.take(index as int),
                island,
            ),
    {
        assert(models[index as int] == stages@[index as int].deep_view());
        assert(all[index as int] == objects@[index as int].deep_view());
        assert(all.take(index as int + 1).drop_last() =~= all.take(index as int));
        match &objects[index] {
            VulkanDistributedDeviceObject::Handle { .. } => {},
            VulkanDistributedDeviceObject::Synchronization { synchronization } => {
                if stages[index].place.island == island {
                    append(&mut synchronizations, synchronization.duplicate());
                }
            },
        }
    }
    assert(all.take(all.len() as int) =~= all);
    synchronizations
}

/// The shards of dispatches at an index, for the dispatches that have one.
pub open spec fn planned_shards(
    dispatches: Seq<VulkanDistributedDispatchPlanModel>,
    shard: nat,
) -> Seq<VulkanDistributedDispatchShardModel>
    decreases dispatches.len(),
{
    if dispatches.len() == 0 {
        Seq::empty()
    } else if shard < dispatches.last().shards.len() {
        planned_shards(dispatches.drop_last(), shard).push(dispatches.last().shards[shard as int])
    } else {
        planned_shards(dispatches.drop_last(), shard)
    }
}

fn list_planned_shards(dispatches: &Vec<VulkanDistributedDispatchPlan>, shard: usize) -> (planned:
    Vec<VulkanDistributedDispatchShard>)
    ensures
        planned.deep_view() == planned_shards(dispatches.deep_view(), shard as nat),
{
    let ghost all = dispatches.deep_view();
    let mut planned: Vec<VulkanDistributedDispatchShard> = Vec::new();
    assert(planned.deep_view() =~= planned_shards(all.take(0), shard as nat));
    for index in 0..dispatches.len()
        invariant
            all == dispatches.deep_view(),
            planned.deep_view() == planned_shards(all.take(index as int), shard as nat),
    {
        let dispatch = &dispatches[index];
        assert(all[index as int] == dispatch.deep_view());
        assert(all.take(index as int + 1).drop_last() =~= all.take(index as int));
        if shard < dispatch.shards.len() {
            assert(dispatch.deep_view().shards[shard as int]
                == dispatch.shards@[shard as int].deep_view());
            append(&mut planned, dispatch.shards[shard].duplicate());
        }
    }
    assert(all.take(all.len() as int) =~= all);
    planned
}

/// The first handle, or zero where there is none.
pub open spec fn first_handle(handles: Seq<u64>) -> u64 {
    if handles.len() > 0 {
        handles[0]
    } else {
        0
    }
}

/// The first handle, where there is one.
pub open spec fn any_handle(handles: Seq<u64>) -> Option<u64> {
    if handles.len() > 0 {
        Some(handles[0])
    } else {
        None
    }
}

/// The gates of a shard of an island, dispatch by dispatch.
pub open spec fn shard_gates(
    stages: Seq<VulkanDistributedRunnerStageModel>,
    objects: Seq<VulkanDistributedDeviceObjectModel>,
    island_index: usize,
    shard_index: usize,
    count: nat,
) -> Seq<Seq<u64>> {
    Seq::new(
        count,
        |d: int|
            handles_of(
                stages,
                objects,
                RunnerStageKind::Gate,
                island_index,
                shard_index,
                Some(d as usize),
            ),
    )
}

/// The runner of a shard of an island, from what the devices gave.
pub open spec fn assembled_shard(
    stages: Seq<VulkanDistributedRunnerStageModel>,
    objects: Seq<VulkanDistributedDeviceObjectModel>,
    island: VulkanPhysicalExecutionIslandPlanModel,
    island_index: usize,
    shard_index: usize,
) -> VulkanDistributedDispatchShardRunnerModel {
    VulkanDistributedDispatchShardRunnerModel {
        device_id: island.dispatches[0].shards[shard_index as int].device_id,
        planned: planned_shards(island.dispatches, shard_index as nat),
        resident_dispatches: handles_of(
            stages,
            objects,
            RunnerStageKind::Kernel,
            island_index,
            shard_index,
            None,
        ),
        selected_resource_gates: shard_gates(
            stages,
            objects,
            island_index,
            shard_index,
            island.dispatches.len(),
        ),
        sequence: first_handle(
            handles_of(
                stages,
                objects,
                RunnerStageKind::Sequence,
                island_index,
                shard_index,
                None,
            ),
        ),
        feedback_sequence: None,
    }
}

/// The runner of an island, from what the devices gave.
pub open spec fn assembled_runner(
    stages: Seq<VulkanDistributedRunnerStageModel>,
    objects: Seq<VulkanDistributedDeviceObjectModel>,
    island: VulkanPhysicalExecutionIslandPlanModel,
    island_index: usize,
) -> VulkanDistributedDispatchRunnerModel {
    VulkanDistributedDispatchRunnerModel {
        planned: island,
        shards: Seq::new(
            island.dispatches[0].shards.len(),
            |s: int| assembled_shard(stages, objects, island, island_index, s as usize),
        ),
        helper_synchronization: synchronizations_of(stages, objects, island_index),
        reduction: any_handle(
            handles_of(stages, objects, RunnerStageKind::Reduction, island_index, 0, None),
        ),
        residency_commit: any_handle(
            handles_of(stages, objects, RunnerStageKind::ResidencyCommit, island_index, 0, None),
        ),
        dependency_clock: 1,
    }
}

/// The runners of a plan, from what the devices gave.
pub open spec fn assembled(
    stages: Seq<VulkanDistributedRunnerStageModel>,
    objects: Seq<VulkanDistributedDeviceObjectModel>,
    inputs: VulkanDistributedRunnerInputsModel,
    plan: VulkanDistributedExecutionPlanModel,
    shard_count: usize,
) -> VulkanDistributedDispatchRunnersModel {
    VulkanDistributedDispatchRunnersModel {
        dispatches: Seq::new(
            plan.execution_islands.len(),
            |i: int| assembled_runner(stages, objects, plan.execution_islands[i], i as usize),
        ),
        dispatch_count: plan.dispatches.len() as usize,
        shard_count,
        transaction_predicates: match inputs.transaction_predicates {
            Some(predicates) => predicates,
            None => Map::empty(),
        },
    }
}

fn assemble_shard(
    stages: &Vec<VulkanDistributedRunnerStage>,
    objects: &Vec<VulkanDistributedDeviceObject>,
    island: &VulkanPhysicalExecutionIslandPlan,
    island_index: usize,
    shard_index: usize,
) -> (runner: VulkanDistributedDispatchShardRunner)
    requires
        objects.len() == stages.len(),
        island.dispatches.len() > 0,
        shard_index < island.dispatches@[0].shards.len(),
    ensures
        runner.deep_view() == assembled_shard(
            stages.deep_view(),
            objects.deep_view(),
            island.deep_view(),
            island_index,
            shard_index,
        ),
{
    let ghost expected = shard_gates(
        stages.deep_view(),
        objects.deep_view(),
        island_index,
        shard_index,
        island.deep_view().dispatches.len(),
    );
    let mut gates: Vec<Vec<u64>> = Vec::new();
    assert(gates.deep_view() =~= expected.take(0));
    for d in 0..island.dispatches.len()
        invariant
            objects.len() == stages.len(),
            expected == shard_gates(
                stages.deep_view(),
                objects.deep_view(),
                island_index,
                shard_index,
                island.deep_view().dispatches.len(),
            ),
            gates.deep_view() == expected.take(d as int),
    {
        append(
            &mut gates,
            list_handles(
                stages,
                objects,
                RunnerStageKind::Gate,
                island_index,
                shard_index,
                Some(d),
            ),
        );
        assert(expected.take(d as int + 1) =~= expected.take(d as int).push(expected[d as int]));
    }
    assert(expected.take(expected.len() as int) =~= expected);
    let leader = island.leader();
    assert(leader.deep_view().shards[shard_index as int]
        == leader.shards@[shard_index as int].deep_view());
    let sequences = list_handles(
        stages,
        objects,
        RunnerStageKind::Sequence,
        island_index,
        shard_index,
        None,
    );
    let sequence: u64 = if sequences.len() > 0 {
        assert(sequences.deep_view()[0] == sequences@[0]);
        sequences[0]
    } else {
        0
    };
    VulkanDistributedDispatchShardRunner {
        device_id: leader.shards[shard_index].device_id.clone(),
        planned: list_planned_shards(&island.dispatches, shard_index),
        resident_dispatches: list_handles(
            stages,
            objects,
            RunnerStageKind::Kernel,
            island_index,
            shard_index,
            None,
        ),
        selected_resource_gates: gates,
        sequence,
        feedback_sequence: None,
    }
}

fn any_listed_handle(
    stages: &Vec<VulkanDistributedRunnerStage>,
    objects: &Vec<VulkanDistributedDeviceObject>,
    kind: RunnerStageKind,
    island_index: usize,
) -> (handle: Option<u64>)
    requires
        objects.len() == stages.len(),
    ensures
        handle == any_handle(
            handles_of(stages.deep_view(), objects.deep_view(), kind, island_index, 0, None),
        ),
{
    let handles = list_handles(stages, objects, kind, island_index, 0, None);
    if handles.len() > 0 {
        assert(handles.deep_view()[0] == handles@[0]);
        Some(handles[0])
    } else {
        None
    }
}

fn assemble_runner(
    stages: &Vec<VulkanDistributedRunnerStage>,
    objects: &Vec<VulkanDistributedDeviceObject>,
    island: &VulkanPhysicalExecutionIslandPlan,
    island_index: usize,
) -> (runner: VulkanDistributedDispatchRunner)
    requires
        objects.len() == stages.len(),
        island.dispatches.len() > 0,
    ensures
        runner.deep_view() == assembled_runner(
            stages.deep_view(),
            objects.deep_view(),
            island.deep_view(),
            island_index,
        ),
{
    let shard_count: usize = island.leader().shards.len();
    let ghost expected = assembled_runner(
        stages.deep_view(),
        objects.deep_view(),
        island.deep_view(),
        island_index,
    ).shards;
    let mut shards: Vec<VulkanDistributedDispatchShardRunner> = Vec::new();
    assert(shards.deep_view() =~= expected.take(0));
    for s in 0..shard_count
        invariant
            objects.len() == stages.len(),
            island.dispatches.len() > 0,
            shard_count == island.dispatches@[0].shards.len(),
            shard_count == expected.len(),
            expected == assembled_runner(
                stages.deep_view(),
                objects.deep_view(),
                island.deep_view(),
                island_index,
            ).shards,
            shards.deep_view() == expected.take(s as int),
    {
        append(&mut shards, assemble_shard(stages, objects, island, island_index, s));
        assert(expected.take(s as int + 1) =~= expected.take(s as int).push(expected[s as int]));
    }
    assert(expected.take(expected.len() as int) =~= expected);
    VulkanDistributedDispatchRunner {
        planned: island.duplicate(),
        shards,
        helper_synchronization: list_synchronizations(stages, objects, island_index),
        reduction: any_listed_handle(stages, objects, RunnerStageKind::Reduction, island_index),
        residency_commit: any_listed_handle(
            stages,
            objects,
            RunnerStageKind::ResidencyCommit,
            island_index,
        ),
        dependency_clock: VulkanDistributedDependencyClock::new(),
    }
}

/// Makes the runners of a plan from what the devices gave.
pub fn assemble_runners(
    stages: &Vec<VulkanDistributedRunnerStage>,
    objects: &Vec<VulkanDistributedDeviceObject>,
    inputs: &VulkanDistributedRunnerInputs,
    execution_plan: &VulkanDistributedExecutionPlan,
    shard_count: usize,
) -> (runners: VulkanDistributedDispatchRunners)
    requires
        objects.len() == stages.len(),
        islands_are_sound(execution_plan.deep_view()),
    ensures
        runners.deep_view() == assembled(
            stages.deep_view(),
            objects.deep_view(),
            inputs.deep_view(),
            execution_plan.deep_view(),
            shard_count,
        ),
{
    let ghost expected = assembled(
        stages.deep_view(),
        objects.deep_view(),
        inputs.deep_view(),
        execution_plan.deep_view(),
        shard_count,
    ).dispatches;
    let mut dispatches: Vec<VulkanDistributedDispatchRunner> = Vec::new();
    assert(dispatches.deep_view() =~= expected.take(0));
    for i in 0..execution_plan.execution_islands.len()
        invariant
            objects.len() == stages.len(),
            islands_are_sound(execution_plan.deep_view()),
            expected == assembled(
                stages.deep_view(),
                objects.deep_view(),
                inputs.deep_view(),
                execution_plan.deep_view(),
                shard_count,
            ).dispatches,
            dispatches.deep_view() == expected.take(i as int),
    {
        let island = &execution_plan.execution_islands[i];
        assert(execution_plan.deep_view().execution_islands[i as int] == island.deep_view());
        assert(execution_plan.deep_view().execution_islands[i as int].dispatches.len() > 0);
        append(&mut dispatches, assemble_runner(stages, objects, island, i));
        assert(expected.take(i as int + 1) =~= expected.take(i as int).push(expected[i as int]));
    }
    assert(expected.take(expected.len() as int) =~= expected);
    VulkanDistributedDispatchRunners {
        dispatches,
        dispatch_count: execution_plan.dispatches.len(),
        shard_count,
        transaction_predicates: match &inputs.transaction_predicates {
            Some(predicates) => predicates.duplicate(),
            None => OrderedMap::new(),
        },
    }
}

/// The device may be asked for what a stage needs, under the number of the stage.
pub open spec fn request_can_be_made<
    D,
    P: Fn(D, usize, VulkanDistributedStagePlace, &VulkanDistributedDeviceRequest) -> (
        D,
        Result<u64, String>,
    ),
    Y: Fn(D, usize, &String, &String, &String) -> (
        D,
        Result<VulkanDistributedQueueSynchronization, String>,
    ),
>(
    perform: P,
    synchronize: Y,
    at: D,
    number: int,
    stage: VulkanDistributedRunnerStageModel,
) -> bool {
    match stage.request {
        VulkanDistributedDeviceRequestModel::Synchronize { owner_device_id, device_id, label } =>
            forall|own_number: usize, owner: &String, device: &String, name: &String|
                own_number == number && owner@ == owner_device_id && device@ == device_id && name@
                    == label ==> #[trigger] call_requires(
                    synchronize,
                    (at, own_number, owner, device, name),
                ),
        _ => forall|
            own_number: usize,
            place: VulkanDistributedStagePlace,
            asked: &VulkanDistributedDeviceRequest,
        |
            own_number == number && place == stage.place && asked.deep_view() == stage.request
                ==> #[trigger] call_requires(perform, (at, own_number, place, asked)),
    }
}

/// Devices may be asked for the stages in turn: for each once all before it were
/// served. Nothing else is asked of them.
pub open spec fn can_be_asked<
    D,
    P: Fn(D, usize, VulkanDistributedStagePlace, &VulkanDistributedDeviceRequest) -> (
        D,
        Result<u64, String>,
    ),
    Y: Fn(D, usize, &String, &String, &String) -> (
        D,
        Result<VulkanDistributedQueueSynchronization, String>,
    ),
>(
    perform: P,
    synchronize: Y,
    stages: Seq<VulkanDistributedRunnerStageModel>,
    from: D,
) -> bool {
    forall|objects: Seq<VulkanDistributedDeviceObject>, at: D| #[trigger]
        stages_gave(perform, synchronize, stages, objects, from, at) && objects.len()
            < stages.len() ==> request_can_be_made(
            perform,
            synchronize,
            at,
            objects.len() as int,
            stages[objects.len() as int],
        )
}

/// The device that was asked for what a stage needs gave an answer and left the devices
/// so. It is told the number and the place of the stage.
pub open spec fn request_gave<
    D,
    P: Fn(D, usize, VulkanDistributedStagePlace, &VulkanDistributedDeviceRequest) -> (
        D,
        Result<u64, String>,
    ),
    Y: Fn(D, usize, &String, &String, &String) -> (
        D,
        Result<VulkanDistributedQueueSynchronization, String>,
    ),
>(
    perform: P,
    synchronize: Y,
    from: D,
    number: int,
    stage: VulkanDistributedRunnerStageModel,
    to: D,
    reply: Result<VulkanDistributedDeviceObject, String>,
) -> bool {
    match stage.request {
        VulkanDistributedDeviceRequestModel::Synchronize { owner_device_id, device_id, label } =>
            exists|
                own_number: usize,
                owner: &String,
                device: &String,
                name: &String,
                outcome: Result<VulkanDistributedQueueSynchronization, String>,
            |
                own_number == number && owner@ == owner_device_id && device@ == device_id && name@
                    == label && #[trigger] call_ensures(
                    synchronize,
                    (from, own_number, owner, device, name),
                    (to, outcome),
                )
                    && match (outcome, reply) {
                    (
                        Ok(synchronization),
                        Ok(
                            VulkanDistributedDeviceObject::Synchronization {
                                synchronization: given,
                            },
                        ),
                    ) => synchronization == given,
                    (Err(reason), Err(text)) => reason == text,
                    _ => false,
                },
        _ => exists|
            own_number: usize,
            place: VulkanDistributedStagePlace,
            asked: &VulkanDistributedDeviceRequest,
            outcome: Result<u64, String>,
        |
            own_number == number && place == stage.place && asked.deep_view() == stage.request
                && #[trigger] call_ensures(
                perform,
                (from, own_number, place, asked),
                (to, outcome),
            )
                && match (outcome, reply) {
                (Ok(handle), Ok(VulkanDistributedDeviceObject::Handle { handle: given })) => handle
                    == given,
                (Err(reason), Err(text)) => reason == text,
                _ => false,
            },
    }
}

fn ask<
    D,
    P: Fn(D, usize, VulkanDistributedStagePlace, &VulkanDistributedDeviceRequest) -> (
        D,
        Result<u64, String>,
    ),
    Y: Fn(D, usize, &String, &String, &String) -> (
        D,
        Result<VulkanDistributedQueueSynchronization, String>,
    ),
>(
    devices: D,
    perform: &P,
    synchronize: &Y,
    number: usize,
    stage: &VulkanDistributedRunnerStage,
) -> (result: (D, Result<VulkanDistributedDeviceObject, String>))
    requires
        request_can_be_made(*perform, *synchronize, devices, number as int, stage.deep_view()),
    ensures
        request_gave(
            *perform,
            *synchronize,
            devices,
            number as int,
            stage.deep_view(),
            result.0,
            result.1,
        ),
{
    let ghost from = devices;
    match &stage.request {
        VulkanDistributedDeviceRequest::Synchronize { owner_device_id, device_id, label } => {
            let (left, outcome) = synchronize(devices, number, owner_device_id, device_id, label);
            assert(call_ensures(
                *synchronize,
                (from, number, owner_device_id, device_id, label),
                (left, outcome),
            ));
            match outcome {
                Ok(synchronization) => (
                    left,
                    Ok(VulkanDistributedDeviceObject::Synchronization { synchronization }),
                ),
                Err(reason) => (left, Err(reason)),
            }
        },
        _ => {
            let (left, outcome) = perform(devices, number, stage.place, &stage.request);
            assert(call_ensures(
                *perform,
                (from, number, stage.place, &stage.request),
                (left, outcome),
            ));
            match outcome {
                Ok(handle) => (left, Ok(VulkanDistributedDeviceObject::Handle { handle })),
                Err(reason) => (left, Err(reason)),
            }
        },
    }
}

/// The devices gave these objects for the first stages, one after the other.
pub open spec fn stages_gave<
    D,
    P: Fn(D, usize, VulkanDistributedStagePlace, &VulkanDistributedDeviceRequest) -> (
        D,
        Result<u64, String>,
    ),
    Y: Fn(D, usize, &String, &String, &String) -> (
        D,
        Result<VulkanDistributedQueueSynchronization, String>,
    ),
>(
    perform: P,
    synchronize: Y,
    stages: Seq<VulkanDistributedRunnerStageModel>,
    objects: Seq<VulkanDistributedDeviceObject>,
    from: D,
    to: D,
) -> bool
    decreases objects.len(),
{
    if objects.len() == 0 {
        from == to
    } else {
        objects.len() <= stages.len() && exists|at: D| #[trigger]
            request_gave(
                perform,
                synchronize,
                at,
                objects.len() - 1,
                stages[objects.len() - 1],
                to,
                Ok::<VulkanDistributedDeviceObject, String>(objects.last()),
            ) && stages_gave(perform, synchronize, stages, objects.drop_last(), from, at)
    }
}

/// The models of objects.
pub open spec fn object_models(objects: Seq<VulkanDistributedDeviceObject>) -> Seq<
    VulkanDistributedDeviceObjectModel,
> {
    objects.map_values(|object: VulkanDistributedDeviceObject| object.deep_view())
}

/// The stages that devices are asked for.
pub open spec fn all_stages(created: CountedStagesModel) -> Seq<VulkanDistributedRunnerStageModel> {
    match created {
        Ok(counted) => counted.0,
        Err(ended) => ended.0,
    }
}

/// What becomes of objects for the stages: the runners where every stage was served,
/// or an error. Nothing else was asked of the devices.
pub open spec fn creation_outcome<
    D,
    P: Fn(D, usize, VulkanDistributedStagePlace, &VulkanDistributedDeviceRequest) -> (
        D,
        Result<u64, String>,
    ),
    Y: Fn(D, usize, &String, &String, &String) -> (
        D,
        Result<VulkanDistributedQueueSynchronization, String>,
    ),
>(
    perform: P,
    synchronize: Y,
    inputs: VulkanDistributedRunnerInputsModel,
    plan: VulkanDistributedExecutionPlanModel,
    objects: Seq<VulkanDistributedDeviceObject>,
    outcome: Result<VulkanDistributedDispatchRunners, VulkanDistributedDispatchRunnerError>,
    from: D,
    to: D,
) -> bool {
    let created = creation_stages(inputs, plan);
    let stages = all_stages(created);
    if objects.len() < stages.len() {
        let failed = stages[objects.len() as int];
        outcome is Err && exists|at: D, reason: String| #[trigger]
            request_gave(
                perform,
                synchronize,
                at,
                objects.len() as int,
                failed,
                to,
                Err::<VulkanDistributedDeviceObject, String>(reason),
            ) && stages_gave(perform, synchronize, stages, objects, from, at)
                && outcome->Err_0.0@ == failed.failure + reason@
    } else {
        stages_gave(perform, synchronize, stages, objects, from, to) && match created {
            Err(ended) => outcome is Err && outcome->Err_0.0@ == ended.1,
            Ok(counted) => outcome is Ok && outcome->Ok_0.deep_view() == assembled(
                stages,
                object_models(objects),
                inputs,
                plan,
                counted.1,
            ),
        }
    }
}

/// Some answers that the devices can give lead to the outcome.
pub open spec fn creation_can_give<
    D,
    P: Fn(D, usize, VulkanDistributedStagePlace, &VulkanDistributedDeviceRequest) -> (
        D,
        Result<u64, String>,
    ),
    Y: Fn(D, usize, &String, &String, &String) -> (
        D,
        Result<VulkanDistributedQueueSynchronization, String>,
    ),
>(
    perform: P,
    synchronize: Y,
    inputs: VulkanDistributedRunnerInputsModel,
    plan: VulkanDistributedExecutionPlanModel,
    outcome: Result<VulkanDistributedDispatchRunners, VulkanDistributedDispatchRunnerError>,
    from: D,
    to: D,
) -> bool {
    exists|objects: Seq<VulkanDistributedDeviceObject>| #[trigger]
        creation_outcome(perform, synchronize, inputs, plan, objects, outcome, from, to)
}

impl VulkanDistributedDispatchRunners {
    /// Makes the runners of a plan: asks the devices for everything in turn, up to the
    /// first failure or fault. The devices are handed from call to call, so that one call
    /// after the other is made on them and none is made twice.
    pub fn create<
        D,
        P: Fn(D, usize, VulkanDistributedStagePlace, &VulkanDistributedDeviceRequest) -> (
            D,
            Result<u64, String>,
        ),
        Y: Fn(D, usize, &String, &String, &String) -> (
            D,
            Result<VulkanDistributedQueueSynchronization, String>,
        ),
    >(
        execution_plan: &VulkanDistributedExecutionPlan,
        inputs: &VulkanDistributedRunnerInputs,
        devices: D,
        perform: &P,
        synchronize: &Y,
    ) -> (result: (Result<Self, VulkanDistributedDispatchRunnerError>, D))
        requires
            islands_are_sound(execution_plan.deep_view()),
            can_be_asked(
                *perform,
                *synchronize,
                all_stages(creation_stages(inputs.deep_view(), execution_plan.deep_view())),
                devices,
            ),
        ensures
            creation_can_give(
                *perform,
                *synchronize,
                inputs.deep_view(),
                execution_plan.deep_view(),
                result.0,
                devices,
                result.1,
            ),
    {
        let (stages, counted) = list_creation_stages(execution_plan, inputs);
        let ghost models = stages.deep_view();
        let ghost plan = execution_plan.deep_view();
        let ghost resources = inputs.deep_view();
        let ghost from = devices;
        let mut current = devices;
        let mut objects: Vec<VulkanDistributedDeviceObject> = Vec::new();
        for index in 0..stages.len()
            invariant
                can_be_asked(*perform, *synchronize, models, from),
                from == devices,
                models == stages.deep_view(),
                plan == execution_plan.deep_view(),
                resources == inputs.deep_view(),
                models == all_stages(creation_stages(resources, plan)),
                objects.len() == index,
                stages_gave(*perform, *synchronize, models, objects@, from, current),
        {
            let stage = &stages[index];
            assert(models[index as int] == stage.deep_view());
            let ghost at = current;
            let (left, reply) = ask(current, perform, synchronize, index, stage);
            current = left;
            match reply {
                Err(reason) => {
                    let failed: Result<Self, VulkanDistributedDispatchRunnerError> = runner_fault(
                        join2(stage.failure.as_str(), reason.as_str()),
                    );
                    assert(request_gave(
                        *perform,
                        *synchronize,
                        at,
                        objects@.len() as int,
                        models[objects@.len() as int],
                        current,
                        Err::<VulkanDistributedDeviceObject, String>(reason),
                    ));
                    assert(creation_outcome(
                        *perform,
                        *synchronize,
                        resources,
                        plan,
                        objects@,
                        failed,
                        from,
                        current,
                    ));
                    return (failed, current);
                },
                Ok(object) => {
                    let ghost earlier = objects@;
                    objects.push(object);
                    assert(objects@.drop_last() =~= earlier);
                    assert(request_gave(
                        *perform,
                        *synchronize,
                        at,
                        objects@.len() - 1,
                        models[objects@.len() - 1],
                        current,
                        Ok::<VulkanDistributedDeviceObject, String>(objects@.last()),
                    ));
                    assert(stages_gave(
                        *perform,
                        *synchronize,
                        models,
                        objects@,
                        from,
                        current,
                    ));
                },
            }
        }
        let created = match counted {
            Err(error) => Err(error),
            Ok(shard_count) => Ok(
                assemble_runners(&stages, &objects, inputs, execution_plan, shard_count),
            ),
        };
        assert(objects.deep_view() =~= object_models(objects@));
        assert(creation_outcome(
            *perform,
            *synchronize,
            resources,
            plan,
            objects@,
            created,
            from,
            current,
        ));
        (created, current)
    }
}

/// Every runner has an island with dispatches.
pub open spec fn runners_are_sound(runners: VulkanDistributedDispatchRunnersModel) -> bool {
    forall|i: int|
        0 <= i < runners.dispatches.len() ==> (
        #[trigger] runners.dispatches[i]).planned.dispatches.len() > 0
}

/// The runners of a plan with sound islands have islands with dispatches.
pub proof fn law_created_runners_are_sound(
    stages: Seq<VulkanDistributedRunnerStageModel>,
    objects: Seq<VulkanDistributedDeviceObjectModel>,
    inputs: VulkanDistributedRunnerInputsModel,
    plan: VulkanDistributedExecutionPlanModel,
    shard_count: usize,
)
    requires
        islands_are_sound(plan),
    ensures
        runners_are_sound(assembled(stages, objects, inputs, plan, shard_count)),
{
    let runners = assembled(stages, objects, inputs, plan, shard_count);
    assert forall|i: int| 0 <= i < runners.dispatches.len() implies (
    #[trigger] runners.dispatches[i]).planned.dispatches.len() > 0 by {
        assert(plan.execution_islands[i].dispatches.len() > 0);
    }
}

/// The runner runs the island of an owner that starts with a dispatch.
pub open spec fn leads(owner_device_id: Seq<char>, dispatch_index: usize) -> spec_fn(
    VulkanDistributedDispatchRunnerModel,
) -> bool {
    |runner: VulkanDistributedDispatchRunnerModel|
        runner.planned.owner_device_id == owner_device_id
            && runner.planned.dispatches[0].dispatch_index == dispatch_index
}

/// The runner runs an island of an owner that holds a dispatch.
pub open spec fn runs(owner_device_id: Seq<char>, dispatch_index: usize) -> spec_fn(
    VulkanDistributedDispatchRunnerModel,
) -> bool {
    |runner: VulkanDistributedDispatchRunnerModel|
        runner.planned.owner_device_id == owner_device_id && exists|i: int|
            0 <= i < runner.planned.dispatches.len() && (
            #[trigger] runner.planned.dispatches[i]).dispatch_index == dispatch_index
}

/// The text of an error about a dispatch that no runner starts with.
pub open spec fn missing_dispatch_text(
    owner_device_id: Seq<char>,
    dispatch_index: usize,
) -> Seq<char> {
    "distributed runner has no dispatch "@ + decimal_text(dispatch_index as nat) + " owned by "@
        + debug_text(owner_device_id)
}

pub(crate) fn missing_dispatch(owner_device_id: &str, dispatch_index: usize) -> (text: String)
    ensures
        text@ == missing_dispatch_text(owner_device_id@, dispatch_index),
{
    join4(
        "distributed runner has no dispatch ",
        decimal(dispatch_index).as_str(),
        " owned by ",
        quoted(owner_device_id).as_str(),
    )
}

/// A shard of the runner waits for resources.
pub open spec fn has_gates(shard: VulkanDistributedDispatchShardRunnerModel) -> bool {
    exists|g: int|
        0 <= g < shard.selected_resource_gates.len() && (
        #[trigger] shard.selected_resource_gates[g]).len() > 0
}

/// Some shard of the runner waits for resources.
pub open spec fn checks_residency(runner: VulkanDistributedDispatchRunnerModel) -> bool {
    exists|s: int| 0 <= s < runner.shards.len() && has_gates(#[trigger] runner.shards[s])
}

impl VulkanDistributedDispatchShardRunner {
    fn waits_for_resources(&self) -> (result: bool)
        ensures
            result == has_gates(self.deep_view()),
    {
        let ghost all = self.deep_view().selected_resource_gates;
        for index in 0..self.selected_resource_gates.len()
            invariant
                all == self.selected_resource_gates.deep_view(),
                all == self.deep_view().selected_resource_gates,
                forall|g: int| 0 <= g < index ==> (#[trigger] all[g]).len() == 0,
        {
            assert(all[index as int] == self.selected_resource_gates@[index as int].deep_view());
            if self.selected_resource_gates[index].len() > 0 {
                assert(all[index as int].len() > 0);
                return true;
            }
        }
        false
    }
}

/// The gates of a dispatch on a shard.
pub open spec fn gate_number() -> spec_fn(Seq<u64>) -> nat {
    |gates: Seq<u64>| gates.len()
}

/// The kernels and gates of a shard.
pub open spec fn feedback_number() -> spec_fn(VulkanDistributedDispatchShardRunnerModel) -> nat {
    |shard: VulkanDistributedDispatchShardRunnerModel|
        shard.resident_dispatches.len() + sum_of(shard.selected_resource_gates, gate_number())
}

/// The kernels and gates of the shards of a runner.
pub open spec fn runner_feedback_number() -> spec_fn(VulkanDistributedDispatchRunnerModel) -> nat {
    |runner: VulkanDistributedDispatchRunnerModel| sum_of(runner.shards, feedback_number())
}

fn count_gates(gates: &Vec<u64>) -> (count: Option<usize>)
    ensures
        is_checked(count, gate_number()(gates.deep_view())),
{
    Some(gates.len())
}

fn count_feedback(shard: &VulkanDistributedDispatchShardRunner) -> (count: Option<usize>)
    ensures
        is_checked(count, feedback_number()(shard.deep_view())),
{
    let gates = checked_sum(&shard.selected_resource_gates, count_gates, Ghost(gate_number()));
    shard.resident_dispatches.len().checked_add(gates?)
}

fn count_runner_feedback(runner: &VulkanDistributedDispatchRunner) -> (count: Option<usize>)
    ensures
        is_checked(count, runner_feedback_number()(runner.deep_view())),
{
    checked_sum(&runner.shards, count_feedback, Ghost(feedback_number()))
}

/// The semaphores between an owner and a helper, with the value that is next.
pub open spec fn synchronization_points(
    synchronization: VulkanDistributedQueueSynchronizationModel,
    value: u64,
) -> Seq<VulkanTimelineSemaphorePoint> {
    seq![
        VulkanTimelineSemaphorePoint { semaphore: synchronization.ready_source, value },
        VulkanTimelineSemaphorePoint { semaphore: synchronization.ready_wait, value },
        VulkanTimelineSemaphorePoint { semaphore: synchronization.done_source, value },
        VulkanTimelineSemaphorePoint { semaphore: synchronization.done_wait, value },
    ]
}

/// The semaphores of synchronizations, with the value that is next.
pub open spec fn all_synchronization_points(
    synchronizations: Seq<VulkanDistributedQueueSynchronizationModel>,
    value: u64,
) -> Seq<VulkanTimelineSemaphorePoint>
    decreases synchronizations.len(),
{
    if synchronizations.len() == 0 {
        Seq::empty()
    } else {
        all_synchronization_points(synchronizations.drop_last(), value) + synchronization_points(
            synchronizations.last(),
            value,
        )
    }
}

/// The semaphores of runners, each with the value that is next for its island.
pub open spec fn replay_points(runners: Seq<VulkanDistributedDispatchRunnerModel>) -> Seq<
    VulkanTimelineSemaphorePoint,
>
    decreases runners.len(),
{
    if runners.len() == 0 {
        Seq::empty()
    } else {
        replay_points(runners.drop_last()) + all_synchronization_points(
            runners.last().helper_synchronization,
            runners.last().dependency_clock,
        )
    }
}

/// The first runner from an index on whose clock cannot go on by a number of values
/// makes an error.
pub open spec fn advance_fault_from(
    runners: Seq<VulkanDistributedDispatchRunnerModel>,
    count: u64,
    index: nat,
) -> Option<Seq<char>>
    decreases runners.len() - index,
{
    if index >= runners.len() {
        None
    } else {
        match advance_fault(
            runners[index as int].dependency_clock,
            count,
            runners[index as int].planned.owner_device_id,
            runners[index as int].planned.dispatches[0].dispatch_index,
        ) {
            Some(message) => Some(message),
            None => advance_fault_from(runners, count, index + 1),
        }
    }
}

/// The runners with clocks that went on by a number of values.
pub open spec fn advanced(runners: Seq<VulkanDistributedDispatchRunnerModel>, count: u64) -> Seq<
    VulkanDistributedDispatchRunnerModel,
> {
    runners.map_values(
        |runner: VulkanDistributedDispatchRunnerModel|
            VulkanDistributedDispatchRunnerModel {
                dependency_clock: (runner.dependency_clock + count) as u64,
                ..runner
            },
    )
}

proof fn lemma_no_advance_fault(
    runners: Seq<VulkanDistributedDispatchRunnerModel>,
    count: u64,
    start: nat,
    index: int,
)
    requires
        advance_fault_from(runners, count, start) is None,
        start <= index < runners.len(),
    ensures
        runners[index].dependency_clock + count <= u64::MAX,
    decreases runners.len() - start,
{
    if start < index {
        lemma_no_advance_fault(runners, count, start + 1, index);
    }
}

/// The points at which the helpers of a runner learn that inputs are ready, as the
/// owner signals them.
pub open spec fn ready_points(
    synchronizations: Seq<VulkanDistributedQueueSynchronizationModel>,
    value: u64,
) -> Seq<VulkanTimelineSemaphorePoint> {
    synchronizations.map_values(
        |synchronization: VulkanDistributedQueueSynchronizationModel|
            VulkanTimelineSemaphorePoint { semaphore: synchronization.ready_source, value },
    )
}

/// The points at which the owner of a runner learns that outputs are done.
pub open spec fn done_points(
    synchronizations: Seq<VulkanDistributedQueueSynchronizationModel>,
    value: u64,
) -> Seq<VulkanTimelineSemaphorePoint> {
    synchronizations.map_values(
        |synchronization: VulkanDistributedQueueSynchronizationModel|
            VulkanTimelineSemaphorePoint { semaphore: synchronization.done_wait, value },
    )
}

pub(crate) fn list_done_points(
    synchronizations: &Vec<VulkanDistributedQueueSynchronization>,
    value: u64,
) -> (points: Vec<VulkanTimelineSemaphorePoint>)
    ensures
        points.deep_view() == done_points(synchronizations.deep_view(), value),
{
    let ghost expected = done_points(synchronizations.deep_view(), value);
    let mut points: Vec<VulkanTimelineSemaphorePoint> = Vec::new();
    assert(points.deep_view() =~= expected.take(0));
    for index in 0..synchronizations.len()
        invariant
            expected == done_points(synchronizations.deep_view(), value),
            points.deep_view() == expected.take(index as int),
    {
        assert(synchronizations.deep_view()[index as int]
            == synchronizations@[index as int].deep_view());
        append(&mut points, synchronizations[index].owner_done(value));
        assert(expected.take(index as int + 1) =~= expected.take(index as int).push(
            expected[index as int],
        ));
    }
    assert(expected.take(expected.len() as int) =~= expected);
    points
}

fn list_ready_points(
    synchronizations: &Vec<VulkanDistributedQueueSynchronization>,
    value: u64,
) -> (points: Vec<VulkanTimelineSemaphorePoint>)
    ensures
        points.deep_view() == ready_points(synchronizations.deep_view(), value),
{
    let ghost expected = ready_points(synchronizations.deep_view(), value);
    let mut points: Vec<VulkanTimelineSemaphorePoint> = Vec::new();
    assert(points.deep_view() =~= expected.take(0));
    for index in 0..synchronizations.len()
        invariant
            expected == ready_points(synchronizations.deep_view(), value),
            points.deep_view() == expected.take(index as int),
    {
        assert(synchronizations.deep_view()[index as int]
            == synchronizations@[index as int].deep_view());
        append(&mut points, synchronizations[index].owner_ready(value));
        assert(expected.take(index as int + 1) =~= expected.take(index as int).push(
            expected[index as int],
        ));
    }
    assert(expected.take(expected.len() as int) =~= expected);
    points
}

fn add_synchronization_points(
    points: &mut Vec<VulkanTimelineSemaphorePoint>,
    synchronizations: &Vec<VulkanDistributedQueueSynchronization>,
    value: u64,
)
    ensures
        final(points).deep_view() == old(points).deep_view() + all_synchronization_points(
            synchronizations.deep_view(),
            value,
        ),
{
    let ghost all = synchronizations.deep_view();
    let ghost before = points.deep_view();
    assert(points.deep_view() =~= before + all_synchronization_points(all.take(0), value));
    for index in 0..synchronizations.len()
        invariant
            all == synchronizations.deep_view(),
            points.deep_view() == before + all_synchronization_points(
                all.take(index as int),
                value,
            ),
    {
        let synchronization = &synchronizations[index];
        assert(all[index as int] == synchronization.deep_view());
        assert(all.take(index as int + 1).drop_last() =~= all.take(index as int));
        append(points, synchronization.owner_ready(value));
        append(points, synchronization.helper_ready(value));
        append(points, synchronization.helper_done(value));
        append(points, synchronization.owner_done(value));
        assert(points.deep_view() =~= before + all_synchronization_points(
            all.take(index as int + 1),
            value,
        ));
    }
    assert(all.take(all.len() as int) =~= all);
}

/// A point of a semaphore was captured with an outcome that left the devices so.
pub open spec fn capture_gave<D, K: Fn(D, &VulkanTimelineSemaphore, u64) -> (D, Result<(), String>)>(
    capture: K,
    from: D,
    point: VulkanTimelineSemaphorePoint,
    to: D,
    outcome: Result<(), String>,
) -> bool {
    exists|semaphore: &VulkanTimelineSemaphore|
        *semaphore == point.semaphore && #[trigger] call_ensures(
            capture,
            (from, semaphore, point.value),
            (to, outcome),
        )
}

/// The first points were captured, one after the other.
pub open spec fn were_captured<D, K: Fn(D, &VulkanTimelineSemaphore, u64) -> (D, Result<(), String>)>(
    capture: K,
    points: Seq<VulkanTimelineSemaphorePoint>,
    count: nat,
    from: D,
    to: D,
) -> bool
    decreases count,
{
    if count == 0 {
        from == to
    } else {
        exists|at: D| #[trigger]
            capture_gave(capture, at, points[count - 1], to, Ok::<(), String>(()))
                && were_captured(capture, points, (count - 1) as nat, from, at)
    }
}

/// The points may be captured in turn: each once those before it were. Nothing else is
/// captured.
pub open spec fn points_can_be_captured<D, K: Fn(D, &VulkanTimelineSemaphore, u64) -> (D, Result<(), String>)>(
    capture: K,
    points: Seq<VulkanTimelineSemaphorePoint>,
    from: D,
) -> bool {
    forall|count: nat, at: D, semaphore: &VulkanTimelineSemaphore, value: u64|
        #![trigger were_captured(capture, points, count, from, at), call_requires(capture, (at, semaphore, value))]
        were_captured(capture, points, count, from, at) && count < points.len() && *semaphore
            == points[count as int].semaphore && value == points[count as int].value
            ==> call_requires(capture, (at, semaphore, value))
}

/// The points were captured in turn: all of them, or up to the first failure.
pub open spec fn captures_gave<D, K: Fn(D, &VulkanTimelineSemaphore, u64) -> (D, Result<(), String>)>(
    capture: K,
    points: Seq<VulkanTimelineSemaphorePoint>,
    outcome: Result<(), VulkanDistributedDispatchRunnerError>,
    from: D,
    to: D,
) -> bool {
    match outcome {
        Ok(_) => were_captured(capture, points, points.len(), from, to),
        Err(error) => exists|count: nat, at: D|
            count < points.len() && #[trigger] were_captured(capture, points, count, from, at)
                && capture_gave(
                capture,
                at,
                points[count as int],
                to,
                Err::<(), String>(error.0),
            ),
    }
}

impl VulkanDistributedDispatchRunners {
    /// The runner of an island of an owner that starts with a dispatch.
    pub fn dispatch(&self, owner_device_id: &str, dispatch_index: usize) -> (found: Option<
        &VulkanDistributedDispatchRunner,
    >)
        requires
            runners_are_sound(self.deep_view()),
        ensures
            found_as(
                found,
                find_from(self.deep_view().dispatches, 0, leads(owner_device_id@, dispatch_index)),
            ),
    {
        match self.position(owner_device_id, dispatch_index) {
            Some(index) => {
                proof {
                    lemma_found_at(
                        self.deep_view().dispatches,
                        0,
                        leads(owner_device_id@, dispatch_index),
                    );
                }
                assert(self.deep_view().dispatches[index as int]
                    == self.dispatches@[index as int].deep_view());
                Some(&self.dispatches[index])
            },
            None => {
                proof {
                    lemma_found_at(
                        self.deep_view().dispatches,
                        0,
                        leads(owner_device_id@, dispatch_index),
                    );
                }
                None
            },
        }
    }

    fn position(&self, owner_device_id: &str, dispatch_index: usize) -> (found: Option<usize>)
        requires
            runners_are_sound(self.deep_view()),
        ensures
            match found {
                Some(index) => index < self.dispatches.len() && index_from(
                    self.deep_view().dispatches,
                    0,
                    leads(owner_device_id@, dispatch_index),
                ) == Some(index as nat),
                None => index_from(
                    self.deep_view().dispatches,
                    0,
                    leads(owner_device_id@, dispatch_index),
                ) is None,
            },
    {
        let owner = owner_device_id.to_owned();
        let ghost all = self.deep_view().dispatches;
        let ghost condition = leads(owner_device_id@, dispatch_index);
        for index in 0..self.dispatches.len()
            invariant
                runners_are_sound(self.deep_view()),
                owner@ == owner_device_id@,
                all == self.dispatches.deep_view(),
                all == self.deep_view().dispatches,
                condition == leads(owner_device_id@, dispatch_index),
                index_from(all, 0, condition) == index_from(all, index as nat, condition),
        {
            let runner = &self.dispatches[index];
            assert(all[index as int] == runner.deep_view());
            assert(all[index as int].planned.dispatches.len() > 0);
            if runner.planned.owner_device_id == owner
                && runner.planned.leader().dispatch_index == dispatch_index {
                return Some(index);
            }
        }
        None
    }

    /// The island of an owner that holds a dispatch.
    pub fn execution_island(&self, owner_device_id: &str, dispatch_index: usize) -> (found: Option<
        &VulkanPhysicalExecutionIslandPlan,
    >)
        ensures
            found_as(
                found,
                match find_from(
                    self.deep_view().dispatches,
                    0,
                    runs(owner_device_id@, dispatch_index),
                ) {
                    Some(runner) => Some(runner.planned),
                    None => None,
                },
            ),
    {
        let owner = owner_device_id.to_owned();
        let ghost all = self.deep_view().dispatches;
        let ghost condition = runs(owner_device_id@, dispatch_index);
        for index in 0..self.dispatches.len()
            invariant
                owner@ == owner_device_id@,
                all == self.dispatches.deep_view(),
                condition == runs(owner_device_id@, dispatch_index),
                find_from(all, 0, condition) == find_from(all, index as nat, condition),
        {
            let runner = &self.dispatches[index];
            assert(all[index as int] == runner.deep_view());
            let held: bool = runner.planned.contains_dispatch(dispatch_index);
            proof {
                let dispatches = runner.deep_view().planned.dispatches;
                if held {
                    let i = choose|i: int|
                        0 <= i < runner.planned.dispatches.len() && (
                        #[trigger] runner.planned.dispatches@[i]).dispatch_index == dispatch_index;
                    assert(dispatches[i] == runner.planned.dispatches@[i].deep_view());
                } else {
                    assert forall|i: int| 0 <= i < dispatches.len() implies (
                    #[trigger] dispatches[i]).dispatch_index != dispatch_index by {
                        assert(dispatches[i] == runner.planned.dispatches@[i].deep_view());
                    }
                }
            }
            if runner.planned.owner_device_id == owner && held {
                return Some(&runner.planned);
            }
        }
        None
    }

    /// The dispatch that starts the island of an owner that holds a dispatch.
    pub fn leader_dispatch_index(&self, owner_device_id: &str, dispatch_index: usize) -> (found:
        Option<usize>)
        requires
            runners_are_sound(self.deep_view()),
        ensures
            found == (match find_from(
                self.deep_view().dispatches,
                0,
                runs(owner_device_id@, dispatch_index),
            ) {
                Some(runner) => Some(runner.planned.dispatches[0].dispatch_index),
                None => None,
            }),
    {
        let ghost all = self.deep_view().dispatches;
        let ghost condition = runs(owner_device_id@, dispatch_index);
        match self.execution_island(owner_device_id, dispatch_index) {
            Some(island) => {
                proof {
                    lemma_found_satisfies(all, 0, condition);
                }
                Some(island.leader().dispatch_index)
            },
            None => None,
        }
    }

    /// Whether the island of an owner that starts with a dispatch waits for resources.
    pub fn requires_residency_checkpoint(
        &self,
        owner_device_id: &str,
        dispatch_index: usize,
    ) -> (result: bool)
        requires
            runners_are_sound(self.deep_view()),
        ensures
            result == (match find_from(
                self.deep_view().dispatches,
                0,
                leads(owner_device_id@, dispatch_index),
            ) {
                Some(runner) => checks_residency(runner),
                None => false,
            }),
    {
        match self.dispatch(owner_device_id, dispatch_index) {
            None => false,
            Some(runner) => {
                let ghost all = runner.deep_view().shards;
                for index in 0..runner.shards.len()
                    invariant
                        all == runner.shards.deep_view(),
                        all == runner.deep_view().shards,
                        find_from(
                            self.deep_view().dispatches,
                            0,
                            leads(owner_device_id@, dispatch_index),
                        ) == Some(runner.deep_view()),
                        forall|s: int| 0 <= s < index ==> !has_gates(#[trigger] all[s]),
                {
                    assert(all[index as int] == runner.shards@[index as int].deep_view());
                    if runner.shards[index].waits_for_resources() {
                        return true;
                    }
                }
                false
            },
        }
    }

    /// Counts the kernels and gates of all shards.
    pub fn feedback_dispatch_count(&self) -> (outcome: Result<
        usize,
        VulkanDistributedDispatchRunnerError,
    >)
        ensures
            match outcome {
                Ok(count) => count == sum_of(
                    self.deep_view().dispatches,
                    runner_feedback_number(),
                ),
                Err(error) => sum_of(self.deep_view().dispatches, runner_feedback_number())
                    > usize::MAX && error.0@ == "distributed feedback dispatch count overflowed"@,
            },
    {
        match checked_sum(
            &self.dispatches,
            count_runner_feedback,
            Ghost(runner_feedback_number()),
        ) {
            Some(count) => Ok(count),
            None => runner_fault("distributed feedback dispatch count overflowed".to_owned()),
        }
    }

    /// Gives out a value of the semaphores of an island that was not given out before.
    pub fn reserve_dependency_value(
        &mut self,
        owner_device_id: &str,
        dispatch_index: usize,
    ) -> (outcome: Result<u64, VulkanDistributedDispatchRunnerError>)
        requires
            runners_are_sound(old(self).deep_view()),
        ensures
            reservation(
                old(self).deep_view(),
                owner_device_id@,
                dispatch_index,
                final(self).deep_view(),
                outcome,
            ),
    {
        let ghost before = self.deep_view();
        match self.position(owner_device_id, dispatch_index) {
            None => runner_fault(missing_dispatch(owner_device_id, dispatch_index)),
            Some(index) => {
                let ghost runner = before.dispatches[index as int];
                assert(runner == self.dispatches@[index as int].deep_view());
                let mut clock = self.dispatches[index].dependency_clock;
                let outcome = clock.reserve(owner_device_id, dispatch_index);
                self.dispatches[index].dependency_clock = clock;
                assert(self.deep_view().dispatches =~= before.dispatches.update(
                    index as int,
                    VulkanDistributedDispatchRunnerModel {
                        dependency_clock: clock.deep_view(),
                        ..runner
                    },
                ));
                proof {
                    if outcome is Err {
                        assert(self.deep_view().dispatches =~= before.dispatches);
                    }
                }
                outcome
            },
        }
    }

    /// Lets the clocks of all islands go on by a number of values, or of none.
    pub fn advance_replayed_dependency_values(&mut self, count: usize) -> (outcome: Result<
        (),
        VulkanDistributedDispatchRunnerError,
    >)
        requires
            runners_are_sound(old(self).deep_view()),
        ensures
            match outcome {
                Ok(_) => advance_fault_from(old(self).deep_view().dispatches, count as u64, 0)
                    is None && final(self).deep_view() == (VulkanDistributedDispatchRunnersModel {
                    dispatches: advanced(old(self).deep_view().dispatches, count as u64),
                    ..old(self).deep_view()
                }),
                Err(error) => advance_fault_from(
                    old(self).deep_view().dispatches,
                    count as u64,
                    0,
                ) == Some(error.0@) && final(self).deep_view() == old(self).deep_view(),
            },
    {
        let steps: u64 = count as u64;
        let ghost before = self.deep_view();
        let ghost all = before.dispatches;
        let total: usize = self.dispatches.len();
        for index in 0..total
            invariant
                before == self.deep_view(),
                before == old(self).deep_view(),
                steps == count as u64,
                all == self.dispatches.deep_view(),
                all == before.dispatches,
                total == self.dispatches.len(),
                runners_are_sound(before),
                advance_fault_from(all, steps, 0) == advance_fault_from(all, steps, index as nat),
        {
            let runner = &self.dispatches[index];
            assert(all[index as int] == runner.deep_view());
            assert(all[index as int].planned.dispatches.len() > 0);
            match runner.dependency_clock.validate_advance(
                steps,
                runner.planned.owner_device_id.as_str(),
                runner.planned.leader().dispatch_index,
            ) {
                Err(error) => {
                    return Err(error);
                },
                Ok(_) => {},
            }
        }
        for index in 0..total
            invariant
                total == self.dispatches.len(),
                total == all.len(),
                all == before.dispatches,
                advance_fault_from(all, steps, 0) is None,
                self.dispatch_count == before.dispatch_count,
                self.shard_count == before.shard_count,
                self.transaction_predicates.deep_view() == before.transaction_predicates,
                forall|i: int|
                    0 <= i < total ==> (#[trigger] self.dispatches@[i]).deep_view() == (if i
                        < index {
                        advanced(all, steps)[i]
                    } else {
                        all[i]
                    }),
        {
            proof {
                lemma_no_advance_fault(all, steps, 0, index as int);
                assert(self.dispatches@[index as int].deep_view() == all[index as int]);
            }
            let mut clock = self.dispatches[index].dependency_clock;
            clock.advance(steps);
            self.dispatches[index].dependency_clock = clock;
        }
        assert(self.dispatches.deep_view() =~= advanced(all, steps));
        Ok(())
    }

    /// The semaphores of all islands, each with the value that is next.
    pub fn replay_timeline_points(&self) -> (points: Vec<VulkanTimelineSemaphorePoint>)
        ensures
            points.deep_view() == replay_points(self.deep_view().dispatches),
    {
        let ghost all = self.deep_view().dispatches;
        let mut points: Vec<VulkanTimelineSemaphorePoint> = Vec::new();
        assert(points.deep_view() =~= replay_points(all.take(0)));
        for index in 0..self.dispatches.len()
            invariant
                all == self.dispatches.deep_view(),
                points.deep_view() == replay_points(all.take(index as int)),
        {
            let runner = &self.dispatches[index];
            assert(all[index as int] == runner.deep_view());
            assert(all.take(index as int + 1).drop_last() =~= all.take(index as int));
            add_synchronization_points(
                &mut points,
                &runner.helper_synchronization,
                runner.dependency_clock.next_value(),
            );
        }
        assert(all.take(all.len() as int) =~= all);
        points
    }

    /// Captures the next value of every semaphore of every island.
    pub fn capture_replay_timeline_state<
        D,
        K: Fn(D, &VulkanTimelineSemaphore, u64) -> (D, Result<(), String>),
    >(&self, devices: D, capture: &K) -> (result: (
        Result<(), VulkanDistributedDispatchRunnerError>,
        D,
    ))
        requires
            points_can_be_captured(*capture, replay_points(self.deep_view().dispatches), devices),
        ensures
            captures_gave(
                *capture,
                replay_points(self.deep_view().dispatches),
                result.0,
                devices,
                result.1,
            ),
    {
        let points = self.replay_timeline_points();
        let ghost all = points.deep_view();
        let ghost from = devices;
        let mut current = devices;
        for index in 0..points.len()
            invariant
                points_can_be_captured(*capture, all, from),
                from == devices,
                all == points.deep_view(),
                all == replay_points(self.deep_view().dispatches),
                were_captured(*capture, all, index as nat, from, current),
        {
            let point = points[index];
            assert(all[index as int] == point);
            let ghost at = current;
            let (left, captured) = capture(current, &point.semaphore, point.value);
            current = left;
            assert(call_ensures(
                *capture,
                (at, &point.semaphore, point.value),
                (current, captured),
            ));
            assert(capture_gave(*capture, at, point, current, captured));
            match captured {
                Err(reason) => {
                    let failed: Result<(), VulkanDistributedDispatchRunnerError> = Err(
                        VulkanDistributedDispatchRunnerError(reason),
                    );
                    assert(capture_gave(
                        *capture,
                        at,
                        all[index as int],
                        current,
                        Err::<(), String>(failed->Err_0.0),
                    ));
                    assert(were_captured(*capture, all, index as nat, from, at));
                    return (failed, current);
                },
                Ok(unit) => {
                    assert(unit == ());
                    assert(were_captured(*capture, all, (index + 1) as nat, from, current)) by {
                        assert(capture_gave(
                            *capture,
                            at,
                            all[(index + 1) as nat - 1],
                            current,
                            Ok::<(), String>(()),
                        ));
                    }
                },
            }
        }
        (Ok(()), current)
    }

    /// What an owner signals when the inputs of an island are ready.
    pub fn owner_ready_signal_points(
        &self,
        owner_device_id: &str,
        dispatch_index: usize,
        dependency_value: u64,
    ) -> (outcome: Result<Vec<VulkanTimelineSemaphorePoint>, VulkanDistributedDispatchRunnerError>)
        requires
            runners_are_sound(self.deep_view()),
        ensures
            runner_agrees(
                outcome,
                match find_from(
                    self.deep_view().dispatches,
                    0,
                    leads(owner_device_id@, dispatch_index),
                ) {
                    Some(runner) => Ok(
                        ready_points(runner.helper_synchronization, dependency_value),
                    ),
                    None => Err(missing_dispatch_text(owner_device_id@, dispatch_index)),
                },
            ),
    {
        match self.dispatch(owner_device_id, dispatch_index) {
            None => runner_fault(missing_dispatch(owner_device_id, dispatch_index)),
            Some(runner) => Ok(list_ready_points(&runner.helper_synchronization, dependency_value)),
        }
    }

    /// What an owner waits for until the outputs of an island are done.
    pub fn owner_completion_wait_points(
        &self,
        owner_device_id: &str,
        dispatch_index: usize,
        dependency_value: u64,
    ) -> (outcome: Result<Vec<VulkanTimelineSemaphorePoint>, VulkanDistributedDispatchRunnerError>)
        requires
            runners_are_sound(self.deep_view()),
        ensures
            runner_agrees(
                outcome,
                match find_from(
                    self.deep_view().dispatches,
                    0,
                    leads(owner_device_id@, dispatch_index),
                ) {
                    Some(runner) => Ok(
                        done_points(runner.helper_synchronization, dependency_value),
                    ),
                    None => Err(missing_dispatch_text(owner_device_id@, dispatch_index)),
                },
            ),
    {
        match self.dispatch(owner_device_id, dispatch_index) {
            None => runner_fault(missing_dispatch(owner_device_id, dispatch_index)),
            Some(runner) => Ok(list_done_points(&runner.helper_synchronization, dependency_value)),
        }
    }
}

/// What giving out a value of the semaphores of an island does.
pub open spec fn reservation(
    before: VulkanDistributedDispatchRunnersModel,
    owner_device_id: Seq<char>,
    dispatch_index: usize,
    after: VulkanDistributedDispatchRunnersModel,
    outcome: Result<u64, VulkanDistributedDispatchRunnerError>,
) -> bool {
    match index_from(before.dispatches, 0, leads(owner_device_id, dispatch_index)) {
        None => outcome is Err && outcome->Err_0.0@ == missing_dispatch_text(
            owner_device_id,
            dispatch_index,
        ) && after == before,
        Some(index) => {
            let runner = before.dispatches[index as int];
            match reserved(runner.dependency_clock, owner_device_id, dispatch_index) {
                Err(message) => outcome is Err && outcome->Err_0.0@ == message && after == before,
                Ok(next) => outcome == Ok::<u64, VulkanDistributedDispatchRunnerError>(next.0)
                    && after == (VulkanDistributedDispatchRunnersModel {
                    dispatches: before.dispatches.update(
                        index as int,
                        VulkanDistributedDispatchRunnerModel {
                            dependency_clock: next.1,
                            ..runner
                        },
                    ),
                    ..before
                }),
            }
        },
    }
}

/// The first item that satisfies a condition stands at the first index that does.
pub proof fn lemma_found_at<T>(items: Seq<T>, start: nat, condition: spec_fn(T) -> bool)
    ensures
        match index_from(items, start, condition) {
            Some(index) => index < items.len() && find_from(items, start, condition) == Some(
                items[index as int],
            ) && condition(items[index as int]),
            None => find_from(items, start, condition) is None,
        },
    decreases items.len() - start,
{
    if start < items.len() && !condition(items[start as int]) {
        lemma_found_at(items, start + 1, condition);
    }
}

/// What was found is an item of the sequence and satisfies the condition.
pub proof fn lemma_found_satisfies<T>(items: Seq<T>, start: nat, condition: spec_fn(T) -> bool)
    ensures
        find_from(items, start, condition) is Some ==> condition(
            find_from(items, start, condition)->0,
        ) && exists|i: int|
            0 <= i < items.len() && #[trigger] items[i] == find_from(items, start, condition)->0,
    decreases items.len() - start,
{
    if start < items.len() && !condition(items[start as int]) {
        lemma_found_satisfies(items, start + 1, condition);
    }
}

} // verus!
