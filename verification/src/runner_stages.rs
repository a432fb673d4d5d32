//! What devices are asked for while the runners of a plan are made.
use vstd::prelude::*;

use crate::activation_building::{dispatch_name, name_dispatch};
use crate::activation_lookups::{activation_seen, handoff_seen};
use crate::dispatch_shards::VulkanDistributedDispatchShardModel;
use crate::errors::VulkanDistributedDispatchRunnerError;
use crate::execution_plans::{
    VulkanDistributedDispatchPlan, VulkanDistributedDispatchPlanModel,
    VulkanDistributedExecutionPlan, VulkanDistributedExecutionPlanModel,
    VulkanPhysicalExecutionIslandPlan, VulkanPhysicalExecutionIslandPlanModel,
};
use crate::islands::{dense_local_shard_handoff, hands_off_locally};
use crate::resident::VulkanResidentBuffer;
use crate::runner_bindings::{
    create_distributed_resident_dispatch, distributed_shard_push_constants, runner_agrees,
    runner_fault, selected_resource_activation, selecting_activation, shard_constants,
    shard_kernel, VulkanDistributedKernelRequest, VulkanDistributedKernelRequestModel,
    VulkanDistributedRunnerInputs, VulkanDistributedRunnerInputsModel,
};
use crate::sequences::{append, kept, lemma_kept_step};
use crate::text::{
    debug_text, decimal, decimal_text, join2, join3, join4, join5, join6, join7, join8, join9,
    quoted,
};
use crate::values::PlainValue;

verus! {

/// A gate that a device is asked to put before a kernel: it lets the kernel run only
/// where the selected resources are resident. The predicate of the shard is named by the
/// number of the stage that made it.
#[derive(Debug, PartialEq, Eq)]
pub struct VulkanDistributedGateRequest {
    pub device_id: String,
    pub execution_scope: String,
    pub component_id: String,
    pub node_id: String,
    pub selector_id: String,
    pub selection_buffer: VulkanResidentBuffer,
    pub selection_byte_capacity: usize,
    pub lane_count: usize,
    pub address_table: VulkanResidentBuffer,
    pub transaction_predicate: VulkanResidentBuffer,
    pub predicate: usize,
    pub checkpoint_tag: u32,
}

/// The model of [`VulkanDistributedGateRequest`].
pub struct VulkanDistributedGateRequestModel {
    pub device_id: Seq<char>,
    pub execution_scope: Seq<char>,
    pub component_id: Seq<char>,
    pub node_id: Seq<char>,
    pub selector_id: Seq<char>,
    pub selection_buffer: VulkanResidentBuffer,
    pub selection_byte_capacity: usize,
    pub lane_count: usize,
    pub address_table: VulkanResidentBuffer,
    pub transaction_predicate: VulkanResidentBuffer,
    pub predicate: usize,
    pub checkpoint_tag: u32,
}

impl DeepView for VulkanDistributedGateRequest {
    type V = VulkanDistributedGateRequestModel;

    open spec fn deep_view(&self) -> VulkanDistributedGateRequestModel {
        VulkanDistributedGateRequestModel {
            device_id: self.device_id.deep_view(),
            execution_scope: self.execution_scope.deep_view(),
            component_id: self.component_id.deep_view(),
            node_id: self.node_id.deep_view(),
            selector_id: self.selector_id.deep_view(),
            selection_buffer: self.selection_buffer.deep_view(),
            selection_byte_capacity: self.selection_byte_capacity.deep_view(),
            lane_count: self.lane_count.deep_view(),
            address_table: self.address_table.deep_view(),
            transaction_predicate: self.transaction_predicate.deep_view(),
            predicate: self.predicate.deep_view(),
            checkpoint_tag: self.checkpoint_tag.deep_view(),
        }
    }
}

impl Clone for VulkanDistributedGateRequest {
    fn clone(&self) -> (copy: Self)
        ensures
            copy.deep_view() == self.deep_view(),
    {
        self.duplicate()
    }
}

impl PlainValue for VulkanDistributedGateRequest {
    fn duplicate(&self) -> (copy: Self) {
        VulkanDistributedGateRequest {
            device_id: self.device_id.duplicate(),
            execution_scope: self.execution_scope.duplicate(),
            component_id: self.component_id.duplicate(),
            node_id: self.node_id.duplicate(),
            selector_id: self.selector_id.duplicate(),
            selection_buffer: self.selection_buffer.duplicate(),
            selection_byte_capacity: self.selection_byte_capacity.duplicate(),
            lane_count: self.lane_count.duplicate(),
            address_table: self.address_table.duplicate(),
            transaction_predicate: self.transaction_predicate.duplicate(),
            predicate: self.predicate.duplicate(),
            checkpoint_tag: self.checkpoint_tag.duplicate(),
        }
    }

    fn same(&self, other: &Self) -> (equal: bool) {
        self.device_id.same(&other.device_id)
            && self.execution_scope.same(&other.execution_scope)
            && self.component_id.same(&other.component_id)
            && self.node_id.same(&other.node_id)
            && self.selector_id.same(&other.selector_id)
            && self.selection_buffer.same(&other.selection_buffer)
            && self.selection_byte_capacity.same(&other.selection_byte_capacity)
            && self.lane_count.same(&other.lane_count)
            && self.address_table.same(&other.address_table)
            && self.transaction_predicate.same(&other.transaction_predicate)
            && self.predicate.same(&other.predicate)
            && self.checkpoint_tag.same(&other.checkpoint_tag)
    }
}

/// A step of the work of a shard: a gate, or a kernel with its constants, guarded by
/// the first gate where there is one.
#[derive(Debug, PartialEq, Eq)]
pub enum VulkanDistributedSequenceStep {
    Gate { dispatch: usize, gate: usize },
    Dispatch { dispatch: usize, push_constants: Vec<u8>, guard: Option<u32> },
}

/// The model of [`VulkanDistributedSequenceStep`].
pub enum VulkanDistributedSequenceStepModel {
    Gate { dispatch: usize, gate: usize },
    Dispatch { dispatch: usize, push_constants: Seq<u8>, guard: Option<u32> },
}

impl DeepView for VulkanDistributedSequenceStep {
    type V = VulkanDistributedSequenceStepModel;

    open spec fn deep_view(&self) -> VulkanDistributedSequenceStepModel {
        match self {
            VulkanDistributedSequenceStep::Gate { dispatch, gate } =>
                VulkanDistributedSequenceStepModel::Gate {
                    dispatch: dispatch.deep_view(),
                    gate: gate.deep_view(),
                },
            VulkanDistributedSequenceStep::Dispatch { dispatch, push_constants, guard } =>
                VulkanDistributedSequenceStepModel::Dispatch {
                    dispatch: dispatch.deep_view(),
                    push_constants: push_constants.deep_view(),
                    guard: guard.deep_view(),
                },
        }
    }
}

impl Clone for VulkanDistributedSequenceStep {
    fn clone(&self) -> (copy: Self)
        ensures
            copy.deep_view() == self.deep_view(),
    {
        self.duplicate()
    }
}

impl PlainValue for VulkanDistributedSequenceStep {
    fn duplicate(&self) -> (copy: Self) {
        match self {
            VulkanDistributedSequenceStep::Gate { dispatch, gate } =>
                VulkanDistributedSequenceStep::Gate {
                    dispatch: dispatch.duplicate(),
                    gate: gate.duplicate(),
                },
            VulkanDistributedSequenceStep::Dispatch { dispatch, push_constants, guard } =>
                VulkanDistributedSequenceStep::Dispatch {
                    dispatch: dispatch.duplicate(),
                    push_constants: push_constants.duplicate(),
                    guard: guard.duplicate(),
                },
        }
    }

    fn same(&self, other: &Self) -> (equal: bool) {
        match (self, other) {
            (
                VulkanDistributedSequenceStep::Gate { dispatch: left_dispatch, gate: left_gate },
                VulkanDistributedSequenceStep::Gate { dispatch: right_dispatch, gate: right_gate },
            ) => left_dispatch.same(right_dispatch) && left_gate.same(right_gate),
            (
                VulkanDistributedSequenceStep::Dispatch {
                    dispatch: left_dispatch,
                    push_constants: left_push_constants,
                    guard: left_guard,
                },
                VulkanDistributedSequenceStep::Dispatch {
                    dispatch: right_dispatch,
                    push_constants: right_push_constants,
                    guard: right_guard,
                },
            ) =>
                left_dispatch.same(right_dispatch)
                    && left_push_constants.same(right_push_constants)
                    && left_guard.same(right_guard),
            _ => false,
        }
    }
}

/// What devices are asked for while the runners of a plan are made. Kernels, gates,
/// predicates, sequences and prepared steps that were made before are named by the numbers
/// of the stages that made them.
#[derive(Debug, PartialEq, Eq)]
pub enum VulkanDistributedDeviceRequest {
    ResolveDevice { device_id: String },
    CreatePredicate { owner_device_id: String, device_id: String, initial_value: u32 },
    CreateDispatch { kernel: VulkanDistributedKernelRequest },
    CreateGate { gate: VulkanDistributedGateRequest },
    CreateSequence { device_id: String },
    PrepareSteps {
        device_id: String,
        kernels: Vec<usize>,
        gates: Vec<usize>,
        steps: Vec<VulkanDistributedSequenceStep>,
    },
    RecordSequence { device_id: String, sequence: usize, prepared: usize },
    Synchronize { owner_device_id: String, device_id: String, label: String },
    CreateReduction {
        owner_device_id: String,
        dispatch_index: usize,
        transaction_predicate: Option<VulkanResidentBuffer>,
        predicates: Vec<usize>,
    },
    CreateResidencyCommit {
        owner_device_id: String,
        component_id: String,
        node_id: String,
        transaction_predicate: Option<VulkanResidentBuffer>,
        predicates: Vec<usize>,
    },
}

/// The model of [`VulkanDistributedDeviceRequest`].
pub enum VulkanDistributedDeviceRequestModel {
    ResolveDevice { device_id: Seq<char> },
    CreatePredicate { owner_device_id: Seq<char>, device_id: Seq<char>, initial_value: u32 },
    CreateDispatch { kernel: VulkanDistributedKernelRequestModel },
    CreateGate { gate: VulkanDistributedGateRequestModel },
    CreateSequence { device_id: Seq<char> },
    PrepareSteps {
        device_id: Seq<char>,
        kernels: Seq<usize>,
        gates: Seq<usize>,
        steps: Seq<VulkanDistributedSequenceStepModel>,
    },
    RecordSequence { device_id: Seq<char>, sequence: usize, prepared: usize },
    Synchronize { owner_device_id: Seq<char>, device_id: Seq<char>, label: Seq<char> },
    CreateReduction {
        owner_device_id: Seq<char>,
        dispatch_index: usize,
        transaction_predicate: Option<VulkanResidentBuffer>,
        predicates: Seq<usize>,
    },
    CreateResidencyCommit {
        owner_device_id: Seq<char>,
        component_id: Seq<char>,
        node_id: Seq<char>,
        transaction_predicate: Option<VulkanResidentBuffer>,
        predicates: Seq<usize>,
    },
}

impl DeepView for VulkanDistributedDeviceRequest {
    type V = VulkanDistributedDeviceRequestModel;

    open spec fn deep_view(&self) -> VulkanDistributedDeviceRequestModel {
        match self {
            VulkanDistributedDeviceRequest::ResolveDevice { device_id } =>
                VulkanDistributedDeviceRequestModel::ResolveDevice {
                    device_id: device_id.deep_view(),
                },
            VulkanDistributedDeviceRequest::CreatePredicate {
                owner_device_id,
                device_id,
                initial_value,
            } => VulkanDistributedDeviceRequestModel::CreatePredicate {
                owner_device_id: owner_device_id.deep_view(),
                device_id: device_id.deep_view(),
                initial_value: initial_value.deep_view(),
            },
            VulkanDistributedDeviceRequest::CreateDispatch { kernel } =>
                VulkanDistributedDeviceRequestModel::CreateDispatch {
                    kernel: kernel.deep_view(),
                },
            VulkanDistributedDeviceRequest::CreateGate { gate } =>
                VulkanDistributedDeviceRequestModel::CreateGate {
                    gate: gate.deep_view(),
                },
            VulkanDistributedDeviceRequest::CreateSequence { device_id } =>
                VulkanDistributedDeviceRequestModel::CreateSequence {
                    device_id: device_id.deep_view(),
                },
            VulkanDistributedDeviceRequest::PrepareSteps { device_id, kernels, gates, steps } =>
                VulkanDistributedDeviceRequestModel::PrepareSteps {
                    device_id: device_id.deep_view(),
                    kernels: kernels.deep_view(),
                    gates: gates.deep_view(),
                    steps: steps.deep_view(),
                },
            VulkanDistributedDeviceRequest::RecordSequence { device_id, sequence, prepared } =>
                VulkanDistributedDeviceRequestModel::RecordSequence {
                    device_id: device_id.deep_view(),
                    sequence: sequence.deep_view(),
                    prepared: prepared.deep_view(),
                },
            VulkanDistributedDeviceRequest::Synchronize { owner_device_id, device_id, label } =>
                VulkanDistributedDeviceRequestModel::Synchronize {
                    owner_device_id: owner_device_id.deep_view(),
                    device_id: device_id.deep_view(),
                    label: label.deep_view(),
                },
            VulkanDistributedDeviceRequest::CreateReduction {
                owner_device_id,
                dispatch_index,
                transaction_predicate,
                predicates,
            } => VulkanDistributedDeviceRequestModel::CreateReduction {
                owner_device_id: owner_device_id.deep_view(),
                dispatch_index: dispatch_index.deep_view(),
                transaction_predicate: transaction_predicate.deep_view(),
                predicates: predicates.deep_view(),
            },
            VulkanDistributedDeviceRequest::CreateResidencyCommit {
                owner_device_id,
                component_id,
                node_id,
                transaction_predicate,
                predicates,
            } => VulkanDistributedDeviceRequestModel::CreateResidencyCommit {
                owner_device_id: owner_device_id.deep_view(),
                component_id: component_id.deep_view(),
                node_id: node_id.deep_view(),
                transaction_predicate: transaction_predicate.deep_view(),
                predicates: predicates.deep_view(),
            },
        }
    }
}

impl Clone for VulkanDistributedDeviceRequest {
    fn clone(&self) -> (copy: Self)
        ensures
            copy.deep_view() == self.deep_view(),
    {
        self.duplicate()
    }
}

impl PlainValue for VulkanDistributedDeviceRequest {
    fn duplicate(&self) -> (copy: Self) {
        match self {
            VulkanDistributedDeviceRequest::ResolveDevice { device_id } =>
                VulkanDistributedDeviceRequest::ResolveDevice {
                    device_id: device_id.duplicate(),
                },
            VulkanDistributedDeviceRequest::CreatePredicate {
                owner_device_id,
                device_id,
                initial_value,
            } => VulkanDistributedDeviceRequest::CreatePredicate {
                owner_device_id: owner_device_id.duplicate(),
                device_id: device_id.duplicate(),
                initial_value: initial_value.duplicate(),
            },
            VulkanDistributedDeviceRequest::CreateDispatch { kernel } =>
                VulkanDistributedDeviceRequest::CreateDispatch {
                    kernel: kernel.duplicate(),
                },
            VulkanDistributedDeviceRequest::CreateGate { gate } =>
                VulkanDistributedDeviceRequest::CreateGate {
                    gate: gate.duplicate(),
                },
            VulkanDistributedDeviceRequest::CreateSequence { device_id } =>
                VulkanDistributedDeviceRequest::CreateSequence {
                    device_id: device_id.duplicate(),
                },
            VulkanDistributedDeviceRequest::PrepareSteps { device_id, kernels, gates, steps } =>
                VulkanDistributedDeviceRequest::PrepareSteps {
                    device_id: device_id.duplicate(),
                    kernels: kernels.duplicate(),
                    gates: gates.duplicate(),
                    steps: steps.duplicate(),
                },
            VulkanDistributedDeviceRequest::RecordSequence { device_id, sequence, prepared } =>
                VulkanDistributedDeviceRequest::RecordSequence {
                    device_id: device_id.duplicate(),
                    sequence: sequence.duplicate(),
                    prepared: prepared.duplicate(),
                },
            VulkanDistributedDeviceRequest::Synchronize { owner_device_id, device_id, label } =>
                VulkanDistributedDeviceRequest::Synchronize {
                    owner_device_id: owner_device_id.duplicate(),
                    device_id: device_id.duplicate(),
                    label: label.duplicate(),
                },
            VulkanDistributedDeviceRequest::CreateReduction {
                owner_device_id,
                dispatch_index,
                transaction_predicate,
                predicates,
            } => VulkanDistributedDeviceRequest::CreateReduction {
                owner_device_id: owner_device_id.duplicate(),
                dispatch_index: dispatch_index.duplicate(),
                transaction_predicate: transaction_predicate.duplicate(),
                predicates: predicates.duplicate(),
            },
            VulkanDistributedDeviceRequest::CreateResidencyCommit {
                owner_device_id,
                component_id,
                node_id,
                transaction_predicate,
                predicates,
            } => VulkanDistributedDeviceRequest::CreateResidencyCommit {
                owner_device_id: owner_device_id.duplicate(),
                component_id: component_id.duplicate(),
                node_id: node_id.duplicate(),
                transaction_predicate: transaction_predicate.duplicate(),
                predicates: predicates.duplicate(),
            },
        }
    }

    fn same(&self, other: &Self) -> (equal: bool) {
        match (self, other) {
            (
                VulkanDistributedDeviceRequest::ResolveDevice { device_id: left_device_id },
                VulkanDistributedDeviceRequest::ResolveDevice { device_id: right_device_id },
            ) => left_device_id.same(right_device_id),
            (
                VulkanDistributedDeviceRequest::CreatePredicate {
                    owner_device_id: left_owner_device_id,
                    device_id: left_device_id,
                    initial_value: left_initial_value,
                },
                VulkanDistributedDeviceRequest::CreatePredicate {
                    owner_device_id: right_owner_device_id,
                    device_id: right_device_id,
                    initial_value: right_initial_value,
                },
            ) =>
                left_owner_device_id.same(right_owner_device_id)
                    && left_device_id.same(right_device_id)
                    && left_initial_value.same(right_initial_value),
            (
                VulkanDistributedDeviceRequest::CreateDispatch { kernel: left_kernel },
                VulkanDistributedDeviceRequest::CreateDispatch { kernel: right_kernel },
            ) => left_kernel.same(right_kernel),
            (
                VulkanDistributedDeviceRequest::CreateGate { gate: left_gate },
                VulkanDistributedDeviceRequest::CreateGate { gate: right_gate },
            ) => left_gate.same(right_gate),
            (
                VulkanDistributedDeviceRequest::CreateSequence { device_id: left_device_id },
                VulkanDistributedDeviceRequest::CreateSequence { device_id: right_device_id },
            ) => left_device_id.same(right_device_id),
            (
                VulkanDistributedDeviceRequest::PrepareSteps {
                    device_id: left_device_id,
                    kernels: left_kernels,
                    gates: left_gates,
                    steps: left_steps,
                },
                VulkanDistributedDeviceRequest::PrepareSteps {
                    device_id: right_device_id,
                    kernels: right_kernels,
                    gates: right_gates,
                    steps: right_steps,
                },
            ) =>
                left_device_id.same(right_device_id)
                    && left_kernels.same(right_kernels)
                    && left_gates.same(right_gates)
                    && left_steps.same(right_steps),
            (
                VulkanDistributedDeviceRequest::RecordSequence {
                    device_id: left_device_id,
                    sequence: left_sequence,
                    prepared: left_prepared,
                },
                VulkanDistributedDeviceRequest::RecordSequence {
                    device_id: right_device_id,
                    sequence: right_sequence,
                    prepared: right_prepared,
                },
            ) =>
                left_device_id.same(right_device_id)
                    && left_sequence.same(right_sequence)
                    && left_prepared.same(right_prepared),
            (
                VulkanDistributedDeviceRequest::Synchronize {
                    owner_device_id: left_owner_device_id,
                    device_id: left_device_id,
                    label: left_label,
                },
                VulkanDistributedDeviceRequest::Synchronize {
                    owner_device_id: right_owner_device_id,
                    device_id: right_device_id,
                    label: right_label,
                },
            ) =>
                left_owner_device_id.same(right_owner_device_id)
                    && left_device_id.same(right_device_id)
                    && left_label.same(right_label),
            (
                VulkanDistributedDeviceRequest::CreateReduction {
                    owner_device_id: left_owner_device_id,
                    dispatch_index: left_dispatch_index,
                    transaction_predicate: left_transaction_predicate,
                    predicates: left_predicates,
                },
                VulkanDistributedDeviceRequest::CreateReduction {
                    owner_device_id: right_owner_device_id,
                    dispatch_index: right_dispatch_index,
                    transaction_predicate: right_transaction_predicate,
                    predicates: right_predicates,
                },
            ) =>
                left_owner_device_id.same(right_owner_device_id)
                    && left_dispatch_index.same(right_dispatch_index)
                    && left_transaction_predicate.same(right_transaction_predicate)
                    && left_predicates.same(right_predicates),
            (
                VulkanDistributedDeviceRequest::CreateResidencyCommit {
                    owner_device_id: left_owner_device_id,
                    component_id: left_component_id,
                    node_id: left_node_id,
                    transaction_predicate: left_transaction_predicate,
                    predicates: left_predicates,
                },
                VulkanDistributedDeviceRequest::CreateResidencyCommit {
                    owner_device_id: right_owner_device_id,
                    component_id: right_component_id,
                    node_id: right_node_id,
                    transaction_predicate: right_transaction_predicate,
                    predicates: right_predicates,
                },
            ) =>
                left_owner_device_id.same(right_owner_device_id)
                    && left_component_id.same(right_component_id)
                    && left_node_id.same(right_node_id)
                    && left_transaction_predicate.same(right_transaction_predicate)
                    && left_predicates.same(right_predicates),
            _ => false,
        }
    }
}

/// The island, the shard and the dispatch that a request is made for.
#[derive(Clone, Copy, Debug, PartialEq, Eq, Structural)]
pub struct VulkanDistributedStagePlace {
    pub island: usize,
    pub shard: usize,
    pub dispatch: usize,
}

impl DeepView for VulkanDistributedStagePlace {
    type V = VulkanDistributedStagePlace;

    open spec fn deep_view(&self) -> VulkanDistributedStagePlace {
        *self
    }
}

impl PlainValue for VulkanDistributedStagePlace {
    fn duplicate(&self) -> (copy: Self) {
        *self
    }

    fn same(&self, other: &Self) -> (equal: bool) {
        *self == *other
    }
}

/// A request, and what the text of the error starts with where it fails.
#[derive(Debug, PartialEq, Eq)]
pub struct VulkanDistributedRunnerStage {
    pub place: VulkanDistributedStagePlace,
    pub request: VulkanDistributedDeviceRequest,
    pub failure: String,
}

/// The model of [`VulkanDistributedRunnerStage`].
pub struct VulkanDistributedRunnerStageModel {
    pub place: VulkanDistributedStagePlace,
    pub request: VulkanDistributedDeviceRequestModel,
    pub failure: Seq<char>,
}

impl DeepView for VulkanDistributedRunnerStage {
    type V = VulkanDistributedRunnerStageModel;

    open spec fn deep_view(&self) -> VulkanDistributedRunnerStageModel {
        VulkanDistributedRunnerStageModel {
            place: self.place.deep_view(),
            request: self.request.deep_view(),
            failure: self.failure.deep_view(),
        }
    }
}

impl Clone for VulkanDistributedRunnerStage {
    fn clone(&self) -> (copy: Self)
        ensures
            copy.deep_view() == self.deep_view(),
    {
        self.duplicate()
    }
}

impl PlainValue for VulkanDistributedRunnerStage {
    fn duplicate(&self) -> (copy: Self) {
        VulkanDistributedRunnerStage {
            place: self.place.duplicate(),
            request: self.request.duplicate(),
            failure: self.failure.duplicate(),
        }
    }

    fn same(&self, other: &Self) -> (equal: bool) {
        self.place.same(&other.place)
            && self.request.same(&other.request)
            && self.failure.same(&other.failure)
    }
}

/// The dispatches of an island are reduced.
pub open spec fn is_reduced() -> spec_fn(VulkanDistributedDispatchPlanModel) -> bool {
    |dispatch: VulkanDistributedDispatchPlanModel| dispatch.reduction is Some
}

/// The dispatch of an island that is reduced, or the text of the error.
pub open spec fn island_reduction(
    dispatches: Seq<VulkanDistributedDispatchPlanModel>,
) -> Result<Option<VulkanDistributedDispatchPlanModel>, Seq<char>> {
    let reduced = kept(dispatches, is_reduced());
    if reduced.len() == 0 {
        Ok(None)
    } else if reduced.len() == 1 && reduced[0].dispatch_index == dispatches.last().dispatch_index {
        Ok(Some(reduced[0]))
    } else {
        Err(
            "physical execution island "@ + decimal_text(dispatches[0].dispatch_index as nat)
                + ".."@ + decimal_text(dispatches.last().dispatch_index as nat) + " has "@
                + decimal_text(reduced.len()) + " reductions across "@ + decimal_text(
                dispatches.len(),
            ) + " dispatches; only one tail reduction is legal"@,
        )
    }
}

/// Finds the dispatch of an island that is reduced; it can only be the last one.
pub fn physical_island_reduction_dispatch(island: &VulkanPhysicalExecutionIslandPlan) -> (outcome:
    Result<Option<&VulkanDistributedDispatchPlan>, VulkanDistributedDispatchRunnerError>)
    requires
        island.dispatches.len() > 0,
    ensures
        match outcome {
            Ok(Some(dispatch)) => island_reduction(island.deep_view().dispatches) == Ok::<
                Option<VulkanDistributedDispatchPlanModel>,
                Seq<char>,
            >(Some(dispatch.deep_view())),
            Ok(None) => island_reduction(island.deep_view().dispatches) == Ok::<
                Option<VulkanDistributedDispatchPlanModel>,
                Seq<char>,
            >(None),
            Err(error) => island_reduction(island.deep_view().dispatches) == Err::<
                Option<VulkanDistributedDispatchPlanModel>,
                Seq<char>,
            >(error.0@),
        },
{
    let ghost all = island.deep_view().dispatches;
    let ghost condition = is_reduced();
    let mut count: usize = 0;
    let mut found: Option<&VulkanDistributedDispatchPlan> = None;
    assert(all.take(0) =~= Seq::empty());
    for index in 0..island.dispatches.len()
        invariant
            all == island.dispatches.deep_view(),
            condition == is_reduced(),
            count <= index,
            count == kept(all.take(index as int), condition).len(),
            count > 0 ==> found is Some && found->0.deep_view() == kept(
                all.take(index as int),
                condition,
            ).last(),
    {
        proof {
            lemma_kept_step(all, condition, index as int);
            assert(all[index as int] == island.dispatches@[index as int].deep_view());
        }
        if island.dispatches[index].reduction.is_some() {
            count += 1;
            found = Some(&island.dispatches[index]);
        }
    }
    assert(all.take(all.len() as int) =~= all);
    if count == 0 {
        return Ok(None);
    }
    match found {
        Some(dispatch) => {
            if count == 1 && dispatch.dispatch_index == island.tail().dispatch_index {
                return Ok(Some(dispatch));
            }
        },
        None => {},
    }
    runner_fault(
        join9(
            "physical execution island ",
            decimal(island.leader().dispatch_index).as_str(),
            "..",
            decimal(island.tail().dispatch_index).as_str(),
            " has ",
            decimal(count).as_str(),
            " reductions across ",
            decimal(island.dispatches.len()).as_str(),
            " dispatches; only one tail reduction is legal",
        ),
    )
}

/// What the owner of an island does after its shards.
#[derive(Clone, Copy, Debug, PartialEq, Eq, Structural)]
pub enum VulkanDistributedCoordinatorKind {
    Absent,
    NumericReduction,
    ResidencyCommit,
}

impl DeepView for VulkanDistributedCoordinatorKind {
    type V = VulkanDistributedCoordinatorKind;

    open spec fn deep_view(&self) -> VulkanDistributedCoordinatorKind {
        *self
    }
}

/// What the owner of an island does after its shards, or the text of the error.
pub open spec fn coordinator_kind(
    dispatches: Seq<VulkanDistributedDispatchPlanModel>,
    has_predicates: bool,
) -> Result<VulkanDistributedCoordinatorKind, Seq<char>> {
    match island_reduction(dispatches) {
        Err(message) => Err(message),
        Ok(Some(_)) => Ok(VulkanDistributedCoordinatorKind::NumericReduction),
        Ok(None) => if has_predicates {
            Ok(VulkanDistributedCoordinatorKind::ResidencyCommit)
        } else {
            Ok(VulkanDistributedCoordinatorKind::Absent)
        },
    }
}

/// Finds what the owner of an island does after its shards.
pub fn physical_island_coordinator_kind(
    island: &VulkanPhysicalExecutionIslandPlan,
    has_shard_residency_predicates: bool,
) -> (outcome: Result<VulkanDistributedCoordinatorKind, VulkanDistributedDispatchRunnerError>)
    requires
        island.dispatches.len() > 0,
    ensures
        runner_agrees(
            outcome,
            coordinator_kind(island.deep_view().dispatches, has_shard_residency_predicates),
        ),
{
    match physical_island_reduction_dispatch(island) {
        Err(error) => Err(error),
        Ok(Some(_)) => Ok(VulkanDistributedCoordinatorKind::NumericReduction),
        Ok(None) => if has_shard_residency_predicates {
            Ok(VulkanDistributedCoordinatorKind::ResidencyCommit)
        } else {
            Ok(VulkanDistributedCoordinatorKind::Absent)
        },
    }
}

/// Stages, or stages and the text of the error that ends them.
pub type StagesModel = Result<
    Seq<VulkanDistributedRunnerStageModel>,
    (Seq<VulkanDistributedRunnerStageModel>, Seq<char>),
>;

/// The stages are the expected ones, and end with the expected error.
pub open spec fn stages_agree(
    outcome: Result<(), VulkanDistributedDispatchRunnerError>,
    stages: Seq<VulkanDistributedRunnerStageModel>,
    expected: StagesModel,
) -> bool {
    match outcome {
        Ok(_) => expected == Ok::<
            Seq<VulkanDistributedRunnerStageModel>,
            (Seq<VulkanDistributedRunnerStageModel>, Seq<char>),
        >(stages),
        Err(error) => expected == Err::<
            Seq<VulkanDistributedRunnerStageModel>,
            (Seq<VulkanDistributedRunnerStageModel>, Seq<char>),
        >((stages, error.0@)),
    }
}

/// A stage of an island, a shard and a dispatch.
pub open spec fn stage(
    island: nat,
    shard: nat,
    dispatch: nat,
    request: VulkanDistributedDeviceRequestModel,
    failure: Seq<char>,
) -> VulkanDistributedRunnerStageModel {
    VulkanDistributedRunnerStageModel {
        place: VulkanDistributedStagePlace {
            island: island as usize,
            shard: shard as usize,
            dispatch: dispatch as usize,
        },
        request,
        failure,
    }
}

fn push_stage(
    stages: &mut Vec<VulkanDistributedRunnerStage>,
    island: usize,
    shard: usize,
    dispatch: usize,
    request: VulkanDistributedDeviceRequest,
    failure: String,
)
    ensures
        final(stages).deep_view() == old(stages).deep_view().push(
            stage(
                island as nat,
                shard as nat,
                dispatch as nat,
                request.deep_view(),
                failure@,
            ),
        ),
{
    append(
        stages,
        VulkanDistributedRunnerStage {
            place: VulkanDistributedStagePlace { island, shard, dispatch },
            request,
            failure,
        },
    );
}

/// The resources of the device are loaded on demand.
pub open spec fn demand_loaded(
    inputs: VulkanDistributedRunnerInputsModel,
    device_id: Seq<char>,
) -> bool {
    inputs.resource_stores.contains_key(device_id) && inputs.resource_stores[device_id]
}

/// Some dispatch of the island selects resources.
pub open spec fn selects_resources(dispatches: Seq<VulkanDistributedDispatchPlanModel>) -> bool {
    exists|i: int|
        0 <= i < dispatches.len() && (#[trigger] dispatches[i]).selected_resource_partitions.len()
            > 0
}

/// The work of the shard waits for a predicate.
pub open spec fn needs_predicate(
    inputs: VulkanDistributedRunnerInputsModel,
    island: VulkanPhysicalExecutionIslandPlanModel,
) -> spec_fn(VulkanDistributedDispatchShardModel) -> bool {
    |shard: VulkanDistributedDispatchShardModel|
        demand_loaded(inputs, shard.device_id) && selects_resources(island.dispatches)
}

/// The number of gates that stand before the first kernel of a shard.
pub open spec fn gate_count(
    inputs: VulkanDistributedRunnerInputsModel,
    island: VulkanPhysicalExecutionIslandPlanModel,
    device_id: Seq<char>,
) -> nat {
    if demand_loaded(inputs, device_id) {
        island.dispatches[0].selected_resource_partitions.len()
    } else {
        0
    }
}

fn is_demand_loaded(inputs: &VulkanDistributedRunnerInputs, device_id: &String) -> (result: bool)
    ensures
        result == demand_loaded(inputs.deep_view(), device_id@),
{
    match inputs.resource_stores.get(device_id) {
        Some(on_demand) => *on_demand,
        None => false,
    }
}

fn any_selects(dispatches: &Vec<VulkanDistributedDispatchPlan>) -> (result: bool)
    ensures
        result == selects_resources(dispatches.deep_view()),
{
    let ghost all = dispatches.deep_view();
    for index in 0..dispatches.len()
        invariant
            all == dispatches.deep_view(),
            forall|i: int|
                0 <= i < index ==> (#[trigger] all[i]).selected_resource_partitions.len() == 0,
    {
        assert(all[index as int] == dispatches@[index as int].deep_view());
        if dispatches[index].selected_resource_partitions.len() > 0 {
            assert(all[index as int].selected_resource_partitions.len() > 0);
            return true;
        }
    }
    false
}

/// The name of an island in messages.
pub open spec fn island_span(island: VulkanPhysicalExecutionIslandPlanModel) -> Seq<char> {
    decimal_text(island.dispatches[0].dispatch_index as nat) + ".."@ + decimal_text(
        island.dispatches.last().dispatch_index as nat,
    )
}

fn name_span(island: &VulkanPhysicalExecutionIslandPlan) -> (name: String)
    requires
        island.dispatches.len() > 0,
    ensures
        name@ == island_span(island.deep_view()),
{
    join3(
        decimal(island.leader().dispatch_index).as_str(),
        "..",
        decimal(island.tail().dispatch_index).as_str(),
    )
}

/// What a dispatch of an island reads privately, or the text of the error.
pub open spec fn private_source(
    inputs: VulkanDistributedRunnerInputsModel,
    island: VulkanPhysicalExecutionIslandPlanModel,
    index: int,
    device_id: Seq<char>,
) -> Result<Option<VulkanResidentBuffer>, Seq<char>> {
    let dispatch = island.dispatches[index];
    if index > 0 && hands_off_locally(island.dispatches[index - 1], dispatch) {
        match handoff_seen(
            inputs.activations,
            island.dispatches[index - 1].dispatch_index,
            dispatch.dispatch_index,
            device_id,
        ) {
            Some(buffer) => Ok(Some(buffer)),
            None => Err(
                "physical execution island "@ + island_span(island) + " has no private input for "@
                    + dispatch_name(dispatch) + " on "@ + debug_text(device_id),
            ),
        }
    } else {
        Ok(None)
    }
}

/// What a dispatch of an island writes privately, or the text of the error.
pub open spec fn private_target(
    inputs: VulkanDistributedRunnerInputsModel,
    island: VulkanPhysicalExecutionIslandPlanModel,
    index: int,
    device_id: Seq<char>,
) -> Result<Option<VulkanResidentBuffer>, Seq<char>> {
    let dispatch = island.dispatches[index];
    if index + 1 < island.dispatches.len() && hands_off_locally(
        dispatch,
        island.dispatches[index + 1],
    ) {
        match handoff_seen(
            inputs.activations,
            dispatch.dispatch_index,
            island.dispatches[index + 1].dispatch_index,
            device_id,
        ) {
            Some(buffer) => Ok(Some(buffer)),
            None => Err(
                "physical execution island "@ + island_span(island)
                    + " has no private output for "@ + dispatch_name(dispatch) + " on "@
                    + debug_text(device_id),
            ),
        }
    } else {
        Ok(None)
    }
}

fn find_private_source(
    inputs: &VulkanDistributedRunnerInputs,
    island: &VulkanPhysicalExecutionIslandPlan,
    index: usize,
    device_id: &String,
) -> (outcome: Result<Option<VulkanResidentBuffer>, VulkanDistributedDispatchRunnerError>)
    requires
        index < island.dispatches.len(),
    ensures
        runner_agrees(
            outcome,
            private_source(inputs.deep_view(), island.deep_view(), index as int, device_id@),
        ),
{
    let dispatch = &island.dispatches[index];
    assert(island.deep_view().dispatches[index as int] == dispatch.deep_view());
    if index == 0 {
        return Ok(None);
    }
    assert(island.deep_view().dispatches[index as int - 1] == island.dispatches@[index as int
        - 1].deep_view());
    if !dense_local_shard_handoff(&island.dispatches[index - 1], dispatch) {
        return Ok(None);
    }
    match inputs.activation_buffers.private_intermediate_buffer(
        island.dispatches[index - 1].dispatch_index,
        dispatch.dispatch_index,
        device_id.as_str(),
    ) {
        Some(buffer) => Ok(Some(*buffer)),
        None => runner_fault(
            join6(
                "physical execution island ",
                name_span(island).as_str(),
                " has no private input for ",
                name_dispatch(dispatch).as_str(),
                " on ",
                quoted(device_id.as_str()).as_str(),
            ),
        ),
    }
}

fn find_private_target(
    inputs: &VulkanDistributedRunnerInputs,
    island: &VulkanPhysicalExecutionIslandPlan,
    index: usize,
    device_id: &String,
) -> (outcome: Result<Option<VulkanResidentBuffer>, VulkanDistributedDispatchRunnerError>)
    requires
        index < island.dispatches.len(),
    ensures
        runner_agrees(
            outcome,
            private_target(inputs.deep_view(), island.deep_view(), index as int, device_id@),
        ),
{
    let dispatch = &island.dispatches[index];
    assert(island.deep_view().dispatches[index as int] == dispatch.deep_view());
    if index + 1 >= island.dispatches.len() {
        return Ok(None);
    }
    assert(island.deep_view().dispatches[index as int + 1] == island.dispatches@[index as int
        + 1].deep_view());
    if !dense_local_shard_handoff(dispatch, &island.dispatches[index + 1]) {
        return Ok(None);
    }
    match inputs.activation_buffers.private_intermediate_buffer(
        dispatch.dispatch_index,
        island.dispatches[index + 1].dispatch_index,
        device_id.as_str(),
    ) {
        Some(buffer) => Ok(Some(*buffer)),
        None => runner_fault(
            join6(
                "physical execution island ",
                name_span(island).as_str(),
                " has no private output for ",
                name_dispatch(dispatch).as_str(),
                " on ",
                quoted(device_id.as_str()).as_str(),
            ),
        ),
    }
}

/// The kernel of a dispatch of an island on a shard, or the text of the error.
pub open spec fn island_kernel(
    inputs: VulkanDistributedRunnerInputsModel,
    island: VulkanPhysicalExecutionIslandPlanModel,
    shard_index: nat,
    index: int,
) -> Result<VulkanDistributedKernelRequestModel, Seq<char>> {
    let dispatch = island.dispatches[index];
    let device_id = island.dispatches[0].shards[shard_index as int].device_id;
    let shard = dispatch.shards[shard_index as int];
    if shard_index >= dispatch.shards.len() {
        Err(
            "physical execution island "@ + island_span(island) + " has no shard "@ + decimal_text(
                shard_index,
            ) + " for "@ + dispatch_name(dispatch),
        )
    } else if shard.device_id != device_id {
        Err(
            "physical execution island "@ + island_span(island) + " changes shard "@ + decimal_text(
                shard_index,
            ) + " device from "@ + debug_text(device_id) + " to "@ + debug_text(shard.device_id),
        )
    } else if !inputs.artifacts.contains_key(dispatch.physical_artifact_id) {
        Err(
            "distributed dispatch "@ + dispatch_name(dispatch) + " is missing physical artifact "@
                + debug_text(dispatch.physical_artifact_id),
        )
    } else {
        match private_source(inputs, island, index, device_id) {
            Err(message) => Err(message),
            Ok(private_input) => match private_target(inputs, island, index, device_id) {
                Err(message) => Err(message),
                Ok(private_output) => shard_kernel(
                    inputs,
                    dispatch,
                    shard,
                    shard_index as usize,
                    inputs.artifacts[dispatch.physical_artifact_id],
                    private_input,
                    private_output,
                ),
            },
        }
    }
}

/// The rows of every shard of an island end within what can be counted.
pub open spec fn island_rows_fit(island: VulkanPhysicalExecutionIslandPlanModel) -> bool {
    forall|d: int, s: int|
        #![trigger island.dispatches[d].shards[s]]
        0 <= d < island.dispatches.len() && 0 <= s < island.dispatches[d].shards.len()
            ==> island.dispatches[d].shards[s].row_start + island.dispatches[d].shards[s].row_count
            <= usize::MAX
}

fn find_island_kernel(
    inputs: &VulkanDistributedRunnerInputs,
    island: &VulkanPhysicalExecutionIslandPlan,
    shard_index: usize,
    index: usize,
) -> (outcome: Result<VulkanDistributedKernelRequest, VulkanDistributedDispatchRunnerError>)
    requires
        index < island.dispatches.len(),
        shard_index < island.dispatches@[0].shards.len(),
        island_rows_fit(island.deep_view()),
    ensures
        runner_agrees(
            outcome,
            island_kernel(
                inputs.deep_view(),
                island.deep_view(),
                shard_index as nat,
                index as int,
            ),
        ),
        outcome is Ok ==> shard_index < island.dispatches@[index as int].shards.len(),
{
    let leader = island.leader();
    let dispatch = &island.dispatches[index];
    assert(island.deep_view().dispatches[index as int] == dispatch.deep_view());
    assert(island.deep_view().dispatches[0] == leader.deep_view());
    let leader_shard = &leader.shards[shard_index];
    assert(leader.deep_view().shards[shard_index as int] == leader_shard.deep_view());
    if shard_index >= dispatch.shards.len() {
        return runner_fault(
            join6(
                "physical execution island ",
                name_span(island).as_str(),
                " has no shard ",
                decimal(shard_index).as_str(),
                " for ",
                name_dispatch(dispatch).as_str(),
            ),
        );
    }
    let shard = &dispatch.shards[shard_index];
    assert(dispatch.deep_view().shards[shard_index as int] == shard.deep_view());
    assert(island.deep_view().dispatches[index as int].shards[shard_index as int]
        == shard.deep_view());
    if shard.device_id != leader_shard.device_id {
        return runner_fault(
            join8(
                "physical execution island ",
                name_span(island).as_str(),
                " changes shard ",
                decimal(shard_index).as_str(),
                " device from ",
                quoted(leader_shard.device_id.as_str()).as_str(),
                " to ",
                quoted(shard.device_id.as_str()).as_str(),
            ),
        );
    }
    let local_size_x: u32 = match inputs.artifacts.get(&dispatch.physical_artifact_id) {
        None => {
            return runner_fault(
                join4(
                    "distributed dispatch ",
                    name_dispatch(dispatch).as_str(),
                    " is missing physical artifact ",
                    quoted(dispatch.physical_artifact_id.as_str()).as_str(),
                ),
            );
        },
        Some(size) => *size,
    };
    let private_input = match find_private_source(inputs, island, index, &shard.device_id) {
        Err(error) => {
            return Err(error);
        },
        Ok(buffer) => buffer,
    };
    let private_output = match find_private_target(inputs, island, index, &shard.device_id) {
        Err(error) => {
            return Err(error);
        },
        Ok(buffer) => buffer,
    };
    create_distributed_resident_dispatch(
        inputs,
        dispatch,
        shard,
        shard_index,
        local_size_x,
        private_input,
        private_output,
    )
}

/// The residency gate of a selector, or the text of the error.
pub open spec fn selector_gate(
    inputs: VulkanDistributedRunnerInputsModel,
    dispatch: VulkanDistributedDispatchPlanModel,
    device_id: Seq<char>,
    index: int,
    transaction_predicate: VulkanResidentBuffer,
    predicate: usize,
) -> Result<VulkanDistributedGateRequestModel, Seq<char>> {
    let partition = dispatch.selected_resource_partitions[index];
    match selecting_activation(dispatch, partition.selection_signal) {
        Err(message) => Err(message),
        Ok(activation) => match activation_seen(
            inputs.activations,
            dispatch.owner_device_id,
            activation,
            device_id,
        ) {
            None => Err(
                "distributed selected-resource dispatch "@ + dispatch_name(dispatch)
                    + " has no selection buffer "@ + debug_text(partition.selection_signal)
                    + " on "@ + debug_text(device_id),
            ),
            Some(selection_buffer) => if index + 1 > u32::MAX {
                Err("distributed selected-resource checkpoint tag exceeds u32"@)
            } else {
                Ok(
                    VulkanDistributedGateRequestModel {
                        device_id,
                        execution_scope: inputs.execution_scope,
                        component_id: dispatch.component_id,
                        node_id: dispatch.node_id,
                        selector_id: partition.selector_id,
                        selection_buffer,
                        selection_byte_capacity: activation.signal_byte_capacity,
                        lane_count: 1,
                        address_table: inputs.dynamic_resource_buffers[device_id].address_table,
                        transaction_predicate,
                        predicate,
                        checkpoint_tag: (index + 1) as u32,
                    },
                )
            },
        },
    }
}

/// What a stage makes for later ones.
#[derive(Clone, Copy, Debug, PartialEq, Eq, Structural)]
pub enum VulkanDistributedStageProduct {
    Predicate,
    Kernel,
    Gate,
}

/// The request makes this.
pub open spec fn request_makes(
    request: VulkanDistributedDeviceRequestModel,
    product: VulkanDistributedStageProduct,
) -> bool {
    match product {
        VulkanDistributedStageProduct::Predicate => request is CreatePredicate,
        VulkanDistributedStageProduct::Kernel => request is CreateDispatch,
        VulkanDistributedStageProduct::Gate => request is CreateGate,
    }
}

/// The numbers of the stages that make this for an island, and for a shard of it where one
/// is given, in their order.
pub open spec fn stage_numbers(
    stages: Seq<VulkanDistributedRunnerStageModel>,
    product: VulkanDistributedStageProduct,
    island: usize,
    shard: Option<usize>,
) -> Seq<usize>
    decreases stages.len(),
{
    if stages.len() == 0 {
        Seq::empty()
    } else {
        let earlier = stage_numbers(stages.drop_last(), product, island, shard);
        let last = stages.last();
        if request_makes(last.request, product) && last.place.island == island && (shard is Some
            ==> last.place.shard == shard->0) {
            earlier.push((stages.len() - 1) as usize)
        } else {
            earlier
        }
    }
}

fn makes_product(
    request: &VulkanDistributedDeviceRequest,
    product: VulkanDistributedStageProduct,
) -> (result: bool)
    ensures
        result == request_makes(request.deep_view(), product),
{
    match (request, product) {
        (
            VulkanDistributedDeviceRequest::CreatePredicate { .. },
            VulkanDistributedStageProduct::Predicate,
        ) => true,
        (
            VulkanDistributedDeviceRequest::CreateDispatch { .. },
            VulkanDistributedStageProduct::Kernel,
        ) => true,
        (
            VulkanDistributedDeviceRequest::CreateGate { .. },
            VulkanDistributedStageProduct::Gate,
        ) => true,
        _ => false,
    }
}

fn list_stage_numbers(
    stages: &Vec<VulkanDistributedRunnerStage>,
    product: VulkanDistributedStageProduct,
    island: usize,
    shard: Option<usize>,
) -> (numbers: Vec<usize>)
    ensures
        numbers.deep_view() == stage_numbers(stages.deep_view(), product, island, shard),
{
    let ghost all = stages.deep_view();
    let mut numbers: Vec<usize> = Vec::new();
    assert(numbers.deep_view() =~= stage_numbers(all.take(0), product, island, shard));
    for index in 0..stages.len()
        invariant
            all == stages.deep_view(),
            all.len() == stages.len(),
            numbers.deep_view() == stage_numbers(all.take(index as int), product, island, shard),
    {
        let stage = &stages[index];
        assert(all[index as int] == stage.deep_view());
        assert(all.take(index as int + 1).drop_last() =~= all.take(index as int));
        let of_shard: bool = match shard {
            Some(number) => stage.place.shard == number,
            None => true,
        };
        if makes_product(&stage.request, product) && stage.place.island == island && of_shard {
            append(&mut numbers, index);
        }
    }
    assert(all.take(all.len() as int) =~= all);
    numbers
}

/// The stages with the gates of the selectors from an index on.
pub open spec fn gates_from(
    inputs: VulkanDistributedRunnerInputsModel,
    island_index: nat,
    shard_index: nat,
    dispatch: VulkanDistributedDispatchPlanModel,
    device_id: Seq<char>,
    transaction_predicate: VulkanResidentBuffer,
    predicate: usize,
    index: nat,
    stages: Seq<VulkanDistributedRunnerStageModel>,
) -> StagesModel
    decreases dispatch.selected_resource_partitions.len() - index,
{
    if index >= dispatch.selected_resource_partitions.len() {
        Ok(stages)
    } else {
        match selector_gate(
            inputs,
            dispatch,
            device_id,
            index as int,
            transaction_predicate,
            predicate,
        ) {
            Err(message) => Err((stages, message)),
            Ok(gate) => gates_from(
                inputs,
                island_index,
                shard_index,
                dispatch,
                device_id,
                transaction_predicate,
                predicate,
                index + 1,
                stages.push(
                    stage(
                        island_index,
                        shard_index,
                        0,
                        VulkanDistributedDeviceRequestModel::CreateGate { gate },
                        ""@,
                    ),
                ),
            ),
        }
    }
}

/// The stages with the gates before the first kernel of a shard.
pub open spec fn with_gates(
    inputs: VulkanDistributedRunnerInputsModel,
    island_index: nat,
    shard_index: nat,
    dispatch: VulkanDistributedDispatchPlanModel,
    device_id: Seq<char>,
    stages: Seq<VulkanDistributedRunnerStageModel>,
) -> StagesModel {
    let prefix = "distributed selected-resource dispatch "@ + dispatch_name(dispatch);
    let predicates = stage_numbers(
        stages,
        VulkanDistributedStageProduct::Predicate,
        island_index as usize,
        Some(shard_index as usize),
    );
    if !inputs.dynamic_resource_buffers.contains_key(device_id) {
        Err((stages, prefix + " has no dynamic buffers on "@ + debug_text(device_id)))
    } else if inputs.transaction_predicates is None
        || !inputs.transaction_predicates->0.contains_key(device_id) {
        Err((stages, prefix + " has no transaction predicate on "@ + debug_text(device_id)))
    } else if predicates.len() == 0 {
        Err((stages, "distributed demand gate has no shard predicate"@))
    } else {
        gates_from(
            inputs,
            island_index,
            shard_index,
            dispatch,
            device_id,
            inputs.transaction_predicates->0[device_id],
            predicates.last(),
            0,
            stages,
        )
    }
}

fn find_selector_gate(
    inputs: &VulkanDistributedRunnerInputs,
    dispatch: &VulkanDistributedDispatchPlan,
    device_id: &String,
    index: usize,
    address_table: VulkanResidentBuffer,
    transaction_predicate: VulkanResidentBuffer,
    predicate: usize,
) -> (outcome: Result<VulkanDistributedGateRequest, VulkanDistributedDispatchRunnerError>)
    requires
        index < dispatch.selected_resource_partitions.len(),
        address_table == inputs.deep_view().dynamic_resource_buffers[device_id@].address_table,
    ensures
        runner_agrees(
            outcome,
            selector_gate(
                inputs.deep_view(),
                dispatch.deep_view(),
                device_id@,
                index as int,
                transaction_predicate,
                predicate,
            ),
        ),
{
    let partition = &dispatch.selected_resource_partitions[index];
    assert(dispatch.deep_view().selected_resource_partitions[index as int]
        == partition.deep_view());
    let activation = match selected_resource_activation(dispatch, &partition.selection_signal) {
        Err(error) => {
            return Err(error);
        },
        Ok(activation) => activation,
    };
    match inputs.activation_buffers.activation_buffer(
        dispatch.owner_device_id.as_str(),
        &activation,
        device_id.as_str(),
    ) {
        None => runner_fault(
            join6(
                "distributed selected-resource dispatch ",
                name_dispatch(dispatch).as_str(),
                " has no selection buffer ",
                quoted(partition.selection_signal.as_str()).as_str(),
                " on ",
                quoted(device_id.as_str()).as_str(),
            ),
        ),
        Some(selection_buffer) => {
            if index >= u32::MAX as usize {
                return runner_fault(
                    "distributed selected-resource checkpoint tag exceeds u32".to_owned(),
                );
            }
            Ok(
                VulkanDistributedGateRequest {
                    device_id: device_id.clone(),
                    execution_scope: inputs.execution_scope.clone(),
                    component_id: dispatch.component_id.clone(),
                    node_id: dispatch.node_id.clone(),
                    selector_id: partition.selector_id.clone(),
                    selection_buffer: *selection_buffer,
                    selection_byte_capacity: activation.signal_byte_capacity,
                    lane_count: 1,
                    address_table,
                    transaction_predicate,
                    predicate,
                    checkpoint_tag: (index + 1) as u32,
                },
            )
        },
    }
}

fn add_gates(
    inputs: &VulkanDistributedRunnerInputs,
    island_index: usize,
    shard_index: usize,
    dispatch: &VulkanDistributedDispatchPlan,
    device_id: &String,
    stages: &mut Vec<VulkanDistributedRunnerStage>,
) -> (outcome: Result<(), VulkanDistributedDispatchRunnerError>)
    ensures
        stages_agree(
            outcome,
            final(stages).deep_view(),
            with_gates(
                inputs.deep_view(),
                island_index as nat,
                shard_index as nat,
                dispatch.deep_view(),
                device_id@,
                old(stages).deep_view(),
            ),
        ),
{
    let address_table: VulkanResidentBuffer = match inputs.dynamic_resource_buffers.get(device_id) {
        None => {
            return runner_fault(
                join4(
                    "distributed selected-resource dispatch ",
                    name_dispatch(dispatch).as_str(),
                    " has no dynamic buffers on ",
                    quoted(device_id.as_str()).as_str(),
                ),
            );
        },
        Some(resources) => resources.address_table,
    };
    let found: Option<VulkanResidentBuffer> = match &inputs.transaction_predicates {
        None => None,
        Some(predicates) => match predicates.get(device_id) {
            None => None,
            Some(buffer) => Some(*buffer),
        },
    };
    let transaction_predicate: VulkanResidentBuffer = match found {
        None => {
            return runner_fault(
                join4(
                    "distributed selected-resource dispatch ",
                    name_dispatch(dispatch).as_str(),
                    " has no transaction predicate on ",
                    quoted(device_id.as_str()).as_str(),
                ),
            );
        },
        Some(buffer) => buffer,
    };
    let predicates = list_stage_numbers(
        stages,
        VulkanDistributedStageProduct::Predicate,
        island_index,
        Some(shard_index),
    );
    if predicates.len() == 0 {
        return runner_fault("distributed demand gate has no shard predicate".to_owned());
    }
    let predicate: usize = predicates[predicates.len() - 1];
    assert(predicates.deep_view().last() == predicate);
    let ghost before = stages.deep_view();
    let ghost expected = gates_from(
        inputs.deep_view(),
        island_index as nat,
        shard_index as nat,
        dispatch.deep_view(),
        device_id@,
        transaction_predicate,
        predicate,
        0,
        before,
    );
    for index in 0..dispatch.selected_resource_partitions.len()
        invariant
            address_table
                == inputs.deep_view().dynamic_resource_buffers[device_id@].address_table,
            expected == gates_from(
                inputs.deep_view(),
                island_index as nat,
                shard_index as nat,
                dispatch.deep_view(),
                device_id@,
                transaction_predicate,
                predicate,
                index as nat,
                stages.deep_view(),
            ),
            expected == with_gates(
                inputs.deep_view(),
                island_index as nat,
                shard_index as nat,
                dispatch.deep_view(),
                device_id@,
                old(stages).deep_view(),
            ),
    {
        match find_selector_gate(
            inputs,
            dispatch,
            device_id,
            index,
            address_table,
            transaction_predicate,
            predicate,
        ) {
            Err(error) => {
                return Err(error);
            },
            Ok(gate) => {
                push_stage(
                    stages,
                    island_index,
                    shard_index,
                    0,
                    VulkanDistributedDeviceRequest::CreateGate { gate },
                    "".to_owned(),
                );
            },
        }
    }
    Ok(())
}

/// The stages with the kernels and gates of the dispatches from an index on.
pub open spec fn dispatch_stages_from(
    inputs: VulkanDistributedRunnerInputsModel,
    island: VulkanPhysicalExecutionIslandPlanModel,
    island_index: nat,
    shard_index: nat,
    index: nat,
    stages: Seq<VulkanDistributedRunnerStageModel>,
) -> StagesModel
    decreases island.dispatches.len() - index,
{
    let device_id = island.dispatches[0].shards[shard_index as int].device_id;
    if index >= island.dispatches.len() {
        Ok(stages)
    } else {
        match island_kernel(inputs, island, shard_index, index as int) {
            Err(message) => Err((stages, message)),
            Ok(kernel) => {
                let dispatch = island.dispatches[index as int];
                let created = stages.push(
                    stage(
                        island_index,
                        shard_index,
                        index,
                        VulkanDistributedDeviceRequestModel::CreateDispatch { kernel },
                        "failed to create distributed dispatch "@ + dispatch_name(dispatch)
                            + " shard on "@ + debug_text(device_id) + ": "@,
                    ),
                );
                let gated = if index == 0 && gate_count(inputs, island, device_id) > 0 {
                    with_gates(inputs, island_index, shard_index, dispatch, device_id, created)
                } else {
                    Ok(created)
                };
                match gated {
                    Err(ended) => Err(ended),
                    Ok(next) => dispatch_stages_from(
                        inputs,
                        island,
                        island_index,
                        shard_index,
                        index + 1,
                        next,
                    ),
                }
            },
        }
    }
}

fn add_dispatch_stages(
    inputs: &VulkanDistributedRunnerInputs,
    island: &VulkanPhysicalExecutionIslandPlan,
    island_index: usize,
    shard_index: usize,
    stages: &mut Vec<VulkanDistributedRunnerStage>,
) -> (outcome: Result<(), VulkanDistributedDispatchRunnerError>)
    requires
        island.dispatches.len() > 0,
        shard_index < island.dispatches@[0].shards.len(),
        island_rows_fit(island.deep_view()),
    ensures
        stages_agree(
            outcome,
            final(stages).deep_view(),
            dispatch_stages_from(
                inputs.deep_view(),
                island.deep_view(),
                island_index as nat,
                shard_index as nat,
                0,
                old(stages).deep_view(),
            ),
        ),
        outcome is Ok ==> forall|d: int|
            0 <= d < island.dispatches.len() ==> shard_index < (
            #[trigger] island.dispatches@[d]).shards.len(),
{
    let leader_shard = &island.leader().shards[shard_index];
    let ghost model = island.deep_view();
    assert(model.dispatches[0] == island.dispatches@[0].deep_view());
    assert(model.dispatches[0].shards[shard_index as int] == leader_shard.deep_view());
    let ghost expected = dispatch_stages_from(
        inputs.deep_view(),
        model,
        island_index as nat,
        shard_index as nat,
        0,
        stages.deep_view(),
    );
    for index in 0..island.dispatches.len()
        invariant
            island.dispatches.len() > 0,
            shard_index < island.dispatches@[0].shards.len(),
            island_rows_fit(model),
            model == island.deep_view(),
            model.dispatches[0].shards[shard_index as int] == leader_shard.deep_view(),
            forall|d: int|
                0 <= d < index ==> shard_index < (#[trigger] island.dispatches@[d]).shards.len(),
            expected == dispatch_stages_from(
                inputs.deep_view(),
                model,
                island_index as nat,
                shard_index as nat,
                index as nat,
                stages.deep_view(),
            ),
            expected == dispatch_stages_from(
                inputs.deep_view(),
                model,
                island_index as nat,
                shard_index as nat,
                0,
                old(stages).deep_view(),
            ),
    {
        let dispatch = &island.dispatches[index];
        assert(model.dispatches[index as int] == dispatch.deep_view());
        let kernel = match find_island_kernel(inputs, island, shard_index, index) {
            Err(error) => {
                return Err(error);
            },
            Ok(kernel) => kernel,
        };
        let failure = join5(
            "failed to create distributed dispatch ",
            name_dispatch(dispatch).as_str(),
            " shard on ",
            quoted(leader_shard.device_id.as_str()).as_str(),
            ": ",
        );
        push_stage(
            stages,
            island_index,
            shard_index,
            index,
            VulkanDistributedDeviceRequest::CreateDispatch { kernel },
            failure,
        );
        if index == 0 && is_demand_loaded(inputs, &leader_shard.device_id)
            && dispatch.selected_resource_partitions.len() > 0 {
            match add_gates(
                inputs,
                island_index,
                shard_index,
                dispatch,
                &leader_shard.device_id,
                stages,
            ) {
                Err(error) => {
                    return Err(error);
                },
                Ok(_) => {},
            }
        }
    }
    Ok(())
}

/// The number that guards the kernel of a dispatch.
pub open spec fn guard_tag(dispatch_index: usize) -> u32 {
    if dispatch_index > u32::MAX {
        u32::MAX
    } else {
        dispatch_index as u32
    }
}

/// The gates before the first kernel of a shard.
pub open spec fn gate_steps(count: nat) -> Seq<VulkanDistributedSequenceStepModel> {
    Seq::new(
        count,
        |gate: int| VulkanDistributedSequenceStepModel::Gate { dispatch: 0, gate: gate as usize },
    )
}

/// The steps of a shard with the kernels of the dispatches from an index on, or the
/// text of the error.
pub open spec fn steps_from(
    inputs: VulkanDistributedRunnerInputsModel,
    island: VulkanPhysicalExecutionIslandPlanModel,
    shard_index: nat,
    index: nat,
    steps: Seq<VulkanDistributedSequenceStepModel>,
) -> Result<Seq<VulkanDistributedSequenceStepModel>, Seq<char>>
    decreases island.dispatches.len() - index,
{
    let device_id = island.dispatches[0].shards[shard_index as int].device_id;
    if index >= island.dispatches.len() {
        Ok(steps)
    } else {
        let dispatch = island.dispatches[index as int];
        match shard_constants(dispatch, dispatch.shards[shard_index as int]) {
            Err(message) => Err(message),
            Ok(push_constants) => steps_from(
                inputs,
                island,
                shard_index,
                index + 1,
                steps.push(
                    VulkanDistributedSequenceStepModel::Dispatch {
                        dispatch: index as usize,
                        push_constants,
                        guard: if gate_count(inputs, island, device_id) > 0 {
                            Some(guard_tag(dispatch.dispatch_index))
                        } else {
                            None
                        },
                    },
                ),
            ),
        }
    }
}

/// The steps of a shard: its gates, then its kernels, or the text of the error.
pub open spec fn shard_steps(
    inputs: VulkanDistributedRunnerInputsModel,
    island: VulkanPhysicalExecutionIslandPlanModel,
    shard_index: nat,
) -> Result<Seq<VulkanDistributedSequenceStepModel>, Seq<char>> {
    let device_id = island.dispatches[0].shards[shard_index as int].device_id;
    steps_from(
        inputs,
        island,
        shard_index,
        0,
        gate_steps(gate_count(inputs, island, device_id)),
    )
}

fn list_steps(
    inputs: &VulkanDistributedRunnerInputs,
    island: &VulkanPhysicalExecutionIslandPlan,
    shard_index: usize,
) -> (outcome: Result<Vec<VulkanDistributedSequenceStep>, VulkanDistributedDispatchRunnerError>)
    requires
        island.dispatches.len() > 0,
        forall|d: int|
            0 <= d < island.dispatches.len() ==> shard_index < (
            #[trigger] island.dispatches@[d]).shards.len(),
    ensures
        runner_agrees(
            outcome,
            shard_steps(inputs.deep_view(), island.deep_view(), shard_index as nat),
        ),
{
    let ghost model = island.deep_view();
    assert(shard_index < island.dispatches@[0].shards.len());
    let leader = island.leader();
    let leader_shard = &leader.shards[shard_index];
    assert(model.dispatches[0].shards[shard_index as int] == leader_shard.deep_view());
    let gates: usize = if is_demand_loaded(inputs, &leader_shard.device_id) {
        leader.selected_resource_partitions.len()
    } else {
        0
    };
    let ghost count = gate_count(inputs.deep_view(), model, leader_shard.device_id@);
    let mut steps: Vec<VulkanDistributedSequenceStep> = Vec::new();
    assert(steps.deep_view() =~= gate_steps(count).take(0));
    for gate in 0..gates
        invariant
            gates == count,
            steps.deep_view() == gate_steps(count).take(gate as int),
    {
        append(&mut steps, VulkanDistributedSequenceStep::Gate { dispatch: 0, gate });
        assert(gate_steps(count).take(gate as int + 1) =~= gate_steps(count).take(
            gate as int,
        ).push(gate_steps(count)[gate as int]));
    }
    assert(gate_steps(count).take(count as int) =~= gate_steps(count));
    for index in 0..island.dispatches.len()
        invariant
            gates == count,
            count == gate_count(inputs.deep_view(), model, leader_shard.device_id@),
            model == island.deep_view(),
            model.dispatches[0].shards[shard_index as int] == leader_shard.deep_view(),
            forall|d: int|
                0 <= d < island.dispatches.len() ==> shard_index < (
                #[trigger] island.dispatches@[d]).shards.len(),
            shard_steps(inputs.deep_view(), model, shard_index as nat) == steps_from(
                inputs.deep_view(),
                model,
                shard_index as nat,
                index as nat,
                steps.deep_view(),
            ),
    {
        let dispatch = &island.dispatches[index];
        assert(model.dispatches[index as int] == dispatch.deep_view());
        let shard = &dispatch.shards[shard_index];
        assert(dispatch.deep_view().shards[shard_index as int] == shard.deep_view());
        let push_constants = match distributed_shard_push_constants(dispatch, shard) {
            Err(error) => {
                return Err(error);
            },
            Ok(bytes) => bytes,
        };
        let guard: Option<u32> = if gates > 0 {
            if dispatch.dispatch_index > u32::MAX as usize {
                Some(u32::MAX)
            } else {
                Some(dispatch.dispatch_index as u32)
            }
        } else {
            None
        };
        append(
            &mut steps,
            VulkanDistributedSequenceStep::Dispatch { dispatch: index, push_constants, guard },
        );
    }
    Ok(steps)
}

/// The text of an error of the sequence of a shard starts with this.
pub open spec fn sequence_failure(
    action: Seq<char>,
    island: VulkanPhysicalExecutionIslandPlanModel,
    device_id: Seq<char>,
) -> Seq<char> {
    "failed to "@ + action + " distributed sequence "@ + island_span(island) + " shard on "@
        + debug_text(device_id) + ": "@
}

fn name_sequence_failure(
    action: &str,
    island: &VulkanPhysicalExecutionIslandPlan,
    device_id: &String,
) -> (failure: String)
    requires
        island.dispatches.len() > 0,
    ensures
        failure@ == sequence_failure(action@, island.deep_view(), device_id@),
{
    join7(
        "failed to ",
        action,
        " distributed sequence ",
        name_span(island).as_str(),
        " shard on ",
        quoted(device_id.as_str()).as_str(),
        ": ",
    )
}

/// The stages before the kernels of a shard.
pub open spec fn shard_opening(
    inputs: VulkanDistributedRunnerInputsModel,
    island: VulkanPhysicalExecutionIslandPlanModel,
    island_index: nat,
    shard_index: nat,
) -> Seq<VulkanDistributedRunnerStageModel> {
    let shard = island.dispatches[0].shards[shard_index as int];
    let resolved = seq![
        stage(
            island_index,
            shard_index,
            0,
            VulkanDistributedDeviceRequestModel::ResolveDevice { device_id: shard.device_id },
            "failed to resolve distributed shard device "@ + debug_text(shard.device_id) + ": "@,
        ),
    ];
    if needs_predicate(inputs, island)(shard) {
        resolved.push(
            stage(
                island_index,
                shard_index,
                0,
                VulkanDistributedDeviceRequestModel::CreatePredicate {
                    owner_device_id: island.owner_device_id,
                    device_id: shard.device_id,
                    initial_value: 1,
                },
                ""@,
            ),
        )
    } else {
        resolved
    }
}

/// The stages with those of a shard.
pub open spec fn with_shard_stages(
    inputs: VulkanDistributedRunnerInputsModel,
    island: VulkanPhysicalExecutionIslandPlanModel,
    island_index: nat,
    shard_index: nat,
    stages: Seq<VulkanDistributedRunnerStageModel>,
) -> StagesModel {
    let device_id = island.dispatches[0].shards[shard_index as int].device_id;
    match dispatch_stages_from(
        inputs,
        island,
        island_index,
        shard_index,
        0,
        stages + shard_opening(inputs, island, island_index, shard_index),
    ) {
        Err(ended) => Err(ended),
        Ok(dispatched) => {
            let sequenced = dispatched.push(
                stage(
                    island_index,
                    shard_index,
                    0,
                    VulkanDistributedDeviceRequestModel::CreateSequence { device_id },
                    sequence_failure("create"@, island, device_id),
                ),
            );
            match shard_steps(inputs, island, shard_index) {
                Err(message) => Err((sequenced, message)),
                Ok(steps) => Ok(
                    sequenced.push(
                        stage(
                            island_index,
                            shard_index,
                            0,
                            VulkanDistributedDeviceRequestModel::PrepareSteps {
                                device_id,
                                kernels: stage_numbers(
                                    sequenced,
                                    VulkanDistributedStageProduct::Kernel,
                                    island_index as usize,
                                    Some(shard_index as usize),
                                ),
                                gates: stage_numbers(
                                    sequenced,
                                    VulkanDistributedStageProduct::Gate,
                                    island_index as usize,
                                    Some(shard_index as usize),
                                ),
                                steps,
                            },
                            ""@,
                        ),
                    ).push(
                        stage(
                            island_index,
                            shard_index,
                            0,
                            VulkanDistributedDeviceRequestModel::RecordSequence {
                                device_id,
                                sequence: dispatched.len() as usize,
                                prepared: sequenced.len() as usize,
                            },
                            sequence_failure("record"@, island, device_id),
                        ),
                    ),
                ),
            }
        },
    }
}

fn add_shard_stages(
    inputs: &VulkanDistributedRunnerInputs,
    island: &VulkanPhysicalExecutionIslandPlan,
    island_index: usize,
    shard_index: usize,
    stages: &mut Vec<VulkanDistributedRunnerStage>,
) -> (outcome: Result<(), VulkanDistributedDispatchRunnerError>)
    requires
        island.dispatches.len() > 0,
        shard_index < island.dispatches@[0].shards.len(),
        island_rows_fit(island.deep_view()),
    ensures
        stages_agree(
            outcome,
            final(stages).deep_view(),
            with_shard_stages(
                inputs.deep_view(),
                island.deep_view(),
                island_index as nat,
                shard_index as nat,
                old(stages).deep_view(),
            ),
        ),
{
    let shard = &island.leader().shards[shard_index];
    let ghost model = island.deep_view();
    let ghost before = stages.deep_view();
    assert(model.dispatches[0] == island.dispatches@[0].deep_view());
    assert(model.dispatches[0].shards[shard_index as int] == shard.deep_view());
    push_stage(
        stages,
        island_index,
        shard_index,
        0,
        VulkanDistributedDeviceRequest::ResolveDevice { device_id: shard.device_id.clone() },
        join3(
            "failed to resolve distributed shard device ",
            quoted(shard.device_id.as_str()).as_str(),
            ": ",
        ),
    );
    if is_demand_loaded(inputs, &shard.device_id) && any_selects(&island.dispatches) {
        push_stage(
            stages,
            island_index,
            shard_index,
            0,
            VulkanDistributedDeviceRequest::CreatePredicate {
                owner_device_id: island.owner_device_id.clone(),
                device_id: shard.device_id.clone(),
                initial_value: 1,
            },
            "".to_owned(),
        );
    }
    assert(stages.deep_view() =~= before + shard_opening(
        inputs.deep_view(),
        model,
        island_index as nat,
        shard_index as nat,
    ));
    match add_dispatch_stages(inputs, island, island_index, shard_index, stages) {
        Err(error) => {
            return Err(error);
        },
        Ok(_) => {},
    }
    let sequence: usize = stages.len();
    assert(stages.deep_view().len() == sequence);
    push_stage(
        stages,
        island_index,
        shard_index,
        0,
        VulkanDistributedDeviceRequest::CreateSequence { device_id: shard.device_id.clone() },
        name_sequence_failure("create", island, &shard.device_id),
    );
    let steps = match list_steps(inputs, island, shard_index) {
        Err(error) => {
            return Err(error);
        },
        Ok(steps) => steps,
    };
    let kernels = list_stage_numbers(
        stages,
        VulkanDistributedStageProduct::Kernel,
        island_index,
        Some(shard_index),
    );
    let gates = list_stage_numbers(
        stages,
        VulkanDistributedStageProduct::Gate,
        island_index,
        Some(shard_index),
    );
    let prepared: usize = stages.len();
    assert(stages.deep_view().len() == prepared);
    push_stage(
        stages,
        island_index,
        shard_index,
        0,
        VulkanDistributedDeviceRequest::PrepareSteps {
            device_id: shard.device_id.clone(),
            kernels,
            gates,
            steps,
        },
        "".to_owned(),
    );
    push_stage(
        stages,
        island_index,
        shard_index,
        0,
        VulkanDistributedDeviceRequest::RecordSequence {
            device_id: shard.device_id.clone(),
            sequence,
            prepared,
        },
        name_sequence_failure("record", island, &shard.device_id),
    );
    Ok(())
}

/// Stages and the number of kernels on shards, or stages and the text of the error
/// that ends them.
pub type CountedStagesModel = Result<
    (Seq<VulkanDistributedRunnerStageModel>, usize),
    (Seq<VulkanDistributedRunnerStageModel>, Seq<char>),
>;

/// The stages with those of the shards from an index on.
pub open spec fn shard_stages_from(
    inputs: VulkanDistributedRunnerInputsModel,
    island: VulkanPhysicalExecutionIslandPlanModel,
    island_index: nat,
    index: nat,
    stages: Seq<VulkanDistributedRunnerStageModel>,
    count: usize,
) -> CountedStagesModel
    decreases island.dispatches[0].shards.len() - index,
{
    if index >= island.dispatches[0].shards.len() {
        Ok((stages, count))
    } else {
        match with_shard_stages(inputs, island, island_index, index, stages) {
            Err(ended) => Err(ended),
            Ok(next) => if count + island.dispatches.len() > usize::MAX {
                Err((next, "distributed dispatch shard count overflowed"@))
            } else {
                shard_stages_from(
                    inputs,
                    island,
                    island_index,
                    index + 1,
                    next,
                    (count + island.dispatches.len()) as usize,
                )
            },
        }
    }
}

/// The stages that connect the owner of an island with a helper.
pub open spec fn helper_stages(
    island: VulkanPhysicalExecutionIslandPlanModel,
    island_index: nat,
    shard_index: nat,
) -> Seq<VulkanDistributedRunnerStageModel> {
    let device_id = island.dispatches[0].shards[shard_index as int].device_id;
    if device_id == island.owner_device_id {
        Seq::empty()
    } else {
        seq![
            stage(
                island_index,
                shard_index,
                0,
                VulkanDistributedDeviceRequestModel::ResolveDevice { device_id },
                "failed to resolve distributed helper device "@ + debug_text(device_id) + ": "@,
            ),
            stage(
                island_index,
                shard_index,
                0,
                VulkanDistributedDeviceRequestModel::Synchronize {
                    owner_device_id: island.owner_device_id,
                    device_id,
                    label: "distributed dispatch "@ + dispatch_name(island.dispatches[0]),
                },
                ""@,
            ),
        ]
    }
}

/// The stages that connect the owner of an island with its first helpers.
pub open spec fn all_helper_stages(
    island: VulkanPhysicalExecutionIslandPlanModel,
    island_index: nat,
    count: nat,
) -> Seq<VulkanDistributedRunnerStageModel>
    decreases count,
{
    if count == 0 {
        Seq::empty()
    } else {
        all_helper_stages(island, island_index, (count - 1) as nat) + helper_stages(
            island,
            island_index,
            (count - 1) as nat,
        )
    }
}

/// The buffer by which an owner takes part in a transaction.
pub open spec fn owner_predicate(
    inputs: VulkanDistributedRunnerInputsModel,
    owner_device_id: Seq<char>,
) -> Option<VulkanResidentBuffer> {
    match inputs.transaction_predicates {
        None => None,
        Some(predicates) => if predicates.contains_key(owner_device_id) {
            Some(predicates[owner_device_id])
        } else {
            None
        },
    }
}

/// The stages with what the owner of an island does after its shards.
pub open spec fn with_coordinator(
    inputs: VulkanDistributedRunnerInputsModel,
    island: VulkanPhysicalExecutionIslandPlanModel,
    island_index: nat,
    stages: Seq<VulkanDistributedRunnerStageModel>,
) -> StagesModel {
    let predicates = stage_numbers(
        stages,
        VulkanDistributedStageProduct::Predicate,
        island_index as usize,
        None,
    );
    let transaction_predicate = owner_predicate(inputs, island.owner_device_id);
    match coordinator_kind(island.dispatches, predicates.len() > 0) {
        Err(message) => Err((stages, message)),
        Ok(VulkanDistributedCoordinatorKind::Absent) => Ok(stages),
        Ok(VulkanDistributedCoordinatorKind::NumericReduction) => Ok(
            stages.push(
                stage(
                    island_index,
                    0,
                    0,
                    VulkanDistributedDeviceRequestModel::CreateReduction {
                        owner_device_id: island.owner_device_id,
                        dispatch_index: island_reduction(
                            island.dispatches,
                        )->Ok_0->0.dispatch_index,
                        transaction_predicate,
                        predicates,
                    },
                    ""@,
                ),
            ),
        ),
        Ok(VulkanDistributedCoordinatorKind::ResidencyCommit) => Ok(
            stages.push(
                stage(
                    island_index,
                    0,
                    0,
                    VulkanDistributedDeviceRequestModel::CreateResidencyCommit {
                        owner_device_id: island.owner_device_id,
                        component_id: island.dispatches[0].component_id,
                        node_id: island.dispatches.last().node_id,
                        transaction_predicate,
                        predicates,
                    },
                    ""@,
                ),
            ),
        ),
    }
}

/// The stages with those of an island.
pub open spec fn with_island_stages(
    inputs: VulkanDistributedRunnerInputsModel,
    island: VulkanPhysicalExecutionIslandPlanModel,
    island_index: nat,
    stages: Seq<VulkanDistributedRunnerStageModel>,
    count: usize,
) -> CountedStagesModel {
    let opened = stages.push(
        stage(
            island_index,
            0,
            0,
            VulkanDistributedDeviceRequestModel::ResolveDevice {
                device_id: island.owner_device_id,
            },
            "failed to resolve distributed owner device "@ + debug_text(island.owner_device_id)
                + ": "@,
        ),
    );
    match shard_stages_from(inputs, island, island_index, 0, opened, count) {
        Err(ended) => Err(ended),
        Ok(sharded) => match with_coordinator(
            inputs,
            island,
            island_index,
            sharded.0 + all_helper_stages(
                island,
                island_index,
                island.dispatches[0].shards.len(),
            ),
        ) {
            Err(ended) => Err(ended),
            Ok(next) => Ok((next, sharded.1)),
        },
    }
}

/// The stages with those of the islands from an index on.
pub open spec fn island_stages_from(
    inputs: VulkanDistributedRunnerInputsModel,
    islands: Seq<VulkanPhysicalExecutionIslandPlanModel>,
    index: nat,
    stages: Seq<VulkanDistributedRunnerStageModel>,
    count: usize,
) -> CountedStagesModel
    decreases islands.len() - index,
{
    if index >= islands.len() {
        Ok((stages, count))
    } else {
        match with_island_stages(inputs, islands[index as int], index, stages, count) {
            Err(ended) => Err(ended),
            Ok(next) => island_stages_from(inputs, islands, index + 1, next.0, next.1),
        }
    }
}

/// The owner and the participant of a shared predicate, from their views in this order,
/// or the text of the error.
pub open spec fn predicate_views(views: Seq<VulkanResidentBuffer>) -> Result<
    (VulkanResidentBuffer, VulkanResidentBuffer),
    Seq<char>,
> {
    if views.len() == 0 {
        Err("distributed shard predicate has no owner view"@)
    } else if views.len() == 1 {
        Err("distributed shard predicate has no participant view"@)
    } else if views.len() > 2 {
        Err("distributed shard predicate produced unexpected views"@)
    } else {
        Ok((views[0], views[1]))
    }
}

/// Takes the views of a predicate that devices share: the owner's and the participant's.
pub fn take_predicate_views(views: &Vec<VulkanResidentBuffer>) -> (outcome: Result<
    (VulkanResidentBuffer, VulkanResidentBuffer),
    VulkanDistributedDispatchRunnerError,
>)
    ensures
        match outcome {
            Ok(taken) => predicate_views(views@) == Ok::<
                (VulkanResidentBuffer, VulkanResidentBuffer),
                Seq<char>,
            >(taken),
            Err(error) => predicate_views(views@) == Err::<
                (VulkanResidentBuffer, VulkanResidentBuffer),
                Seq<char>,
            >(error.0@),
        },
{
    if views.len() == 0 {
        return runner_fault("distributed shard predicate has no owner view".to_owned());
    }
    if views.len() == 1 {
        return runner_fault("distributed shard predicate has no participant view".to_owned());
    }
    if views.len() > 2 {
        return runner_fault("distributed shard predicate produced unexpected views".to_owned());
    }
    Ok((views[0], views[1]))
}

/// Everything that devices are asked for to make the runners of a plan.
pub open spec fn creation_stages(
    inputs: VulkanDistributedRunnerInputsModel,
    plan: VulkanDistributedExecutionPlanModel,
) -> CountedStagesModel {
    island_stages_from(inputs, plan.execution_islands, 0, Seq::empty(), 0)
}

/// The count and the stages are the expected ones, and end with the expected error.
pub open spec fn counted_stages_agree(
    outcome: Result<usize, VulkanDistributedDispatchRunnerError>,
    stages: Seq<VulkanDistributedRunnerStageModel>,
    expected: CountedStagesModel,
) -> bool {
    match outcome {
        Ok(count) => expected == Ok::<
            (Seq<VulkanDistributedRunnerStageModel>, usize),
            (Seq<VulkanDistributedRunnerStageModel>, Seq<char>),
        >((stages, count)),
        Err(error) => expected == Err::<
            (Seq<VulkanDistributedRunnerStageModel>, usize),
            (Seq<VulkanDistributedRunnerStageModel>, Seq<char>),
        >((stages, error.0@)),
    }
}

fn add_all_shard_stages(
    inputs: &VulkanDistributedRunnerInputs,
    island: &VulkanPhysicalExecutionIslandPlan,
    island_index: usize,
    stages: &mut Vec<VulkanDistributedRunnerStage>,
    count: usize,
) -> (outcome: Result<usize, VulkanDistributedDispatchRunnerError>)
    requires
        island.dispatches.len() > 0,
        island_rows_fit(island.deep_view()),
    ensures
        counted_stages_agree(
            outcome,
            final(stages).deep_view(),
            shard_stages_from(
                inputs.deep_view(),
                island.deep_view(),
                island_index as nat,
                0,
                old(stages).deep_view(),
                count,
            ),
        ),
{
    let ghost model = island.deep_view();
    assert(model.dispatches[0] == island.dispatches@[0].deep_view());
    let shard_count: usize = island.leader().shards.len();
    let ghost expected = shard_stages_from(
        inputs.deep_view(),
        model,
        island_index as nat,
        0,
        stages.deep_view(),
        count,
    );
    let mut total: usize = count;
    for index in 0..shard_count
        invariant
            island.dispatches.len() > 0,
            shard_count == island.dispatches@[0].shards.len(),
            model == island.deep_view(),
            model.dispatches[0] == island.dispatches@[0].deep_view(),
            island_rows_fit(model),
            expected == shard_stages_from(
                inputs.deep_view(),
                model,
                island_index as nat,
                index as nat,
                stages.deep_view(),
                total,
            ),
            expected == shard_stages_from(
                inputs.deep_view(),
                model,
                island_index as nat,
                0,
                old(stages).deep_view(),
                count,
            ),
    {
        match add_shard_stages(inputs, island, island_index, index, stages) {
            Err(error) => {
                return Err(error);
            },
            Ok(_) => {},
        }
        match total.checked_add(island.dispatches.len()) {
            None => {
                return runner_fault("distributed dispatch shard count overflowed".to_owned());
            },
            Some(sum) => {
                total = sum;
            },
        }
    }
    Ok(total)
}

fn add_helper_stages(
    island: &VulkanPhysicalExecutionIslandPlan,
    island_index: usize,
    stages: &mut Vec<VulkanDistributedRunnerStage>,
)
    requires
        island.dispatches.len() > 0,
    ensures
        final(stages).deep_view() == old(stages).deep_view() + all_helper_stages(
            island.deep_view(),
            island_index as nat,
            island.dispatches@[0].shards@.len(),
        ),
{
    let ghost model = island.deep_view();
    let ghost before = stages.deep_view();
    assert(model.dispatches[0] == island.dispatches@[0].deep_view());
    let leader = island.leader();
    assert(stages.deep_view() =~= before + all_helper_stages(model, island_index as nat, 0));
    for index in 0..leader.shards.len()
        invariant
            island.dispatches.len() > 0,
            *leader == island.dispatches@[0],
            model == island.deep_view(),
            model.dispatches[0] == leader.deep_view(),
            stages.deep_view() == before + all_helper_stages(
                model,
                island_index as nat,
                index as nat,
            ),
    {
        let device_id = &leader.shards[index].device_id;
        assert(
            model.dispatches[0].shards[index as int] == leader.shards@[index as int].deep_view()
        );
        let ghost earlier = stages.deep_view();
        if *device_id != island.owner_device_id {
            push_stage(
                stages,
                island_index,
                index,
                0,
                VulkanDistributedDeviceRequest::ResolveDevice { device_id: device_id.clone() },
                join3(
                    "failed to resolve distributed helper device ",
                    quoted(device_id.as_str()).as_str(),
                    ": ",
                ),
            );
            let label = join2("distributed dispatch ", name_dispatch(leader).as_str());
            push_stage(
                stages,
                island_index,
                index,
                0,
                VulkanDistributedDeviceRequest::Synchronize {
                    owner_device_id: island.owner_device_id.clone(),
                    device_id: device_id.clone(),
                    label,
                },
                "".to_owned(),
            );
        }
        assert(stages.deep_view() =~= earlier + helper_stages(
            model,
            island_index as nat,
            index as nat,
        ));
        assert(stages.deep_view() =~= before + all_helper_stages(
            model,
            island_index as nat,
            index as nat + 1,
        ));
    }
}

fn add_coordinator(
    inputs: &VulkanDistributedRunnerInputs,
    island: &VulkanPhysicalExecutionIslandPlan,
    island_index: usize,
    stages: &mut Vec<VulkanDistributedRunnerStage>,
) -> (outcome: Result<(), VulkanDistributedDispatchRunnerError>)
    requires
        island.dispatches.len() > 0,
    ensures
        stages_agree(
            outcome,
            final(stages).deep_view(),
            with_coordinator(
                inputs.deep_view(),
                island.deep_view(),
                island_index as nat,
                old(stages).deep_view(),
            ),
        ),
{
    let predicates = list_stage_numbers(
        stages,
        VulkanDistributedStageProduct::Predicate,
        island_index,
        None,
    );
    assert(predicates.deep_view().len() == predicates.len());
    let transaction_predicate: Option<VulkanResidentBuffer> = match &inputs.transaction_predicates {
        None => None,
        Some(predicates) => match predicates.get(&island.owner_device_id) {
            None => None,
            Some(buffer) => Some(*buffer),
        },
    };
    let kind = match physical_island_coordinator_kind(island, predicates.len() > 0) {
        Err(error) => {
            return Err(error);
        },
        Ok(kind) => kind,
    };
    match kind {
        VulkanDistributedCoordinatorKind::Absent => Ok(()),
        VulkanDistributedCoordinatorKind::NumericReduction => {
            match physical_island_reduction_dispatch(island) {
                Err(error) => {
                    return Err(error);
                },
                Ok(None) => {},
                Ok(Some(dispatch)) => {
                    push_stage(
                        stages,
                        island_index,
                        0,
                        0,
                        VulkanDistributedDeviceRequest::CreateReduction {
                            owner_device_id: island.owner_device_id.clone(),
                            dispatch_index: dispatch.dispatch_index,
                            transaction_predicate,
                            predicates,
                        },
                        "".to_owned(),
                    );
                },
            }
            Ok(())
        },
        VulkanDistributedCoordinatorKind::ResidencyCommit => {
            push_stage(
                stages,
                island_index,
                0,
                0,
                VulkanDistributedDeviceRequest::CreateResidencyCommit {
                    owner_device_id: island.owner_device_id.clone(),
                    component_id: island.leader().component_id.clone(),
                    node_id: island.tail().node_id.clone(),
                    transaction_predicate,
                    predicates,
                },
                "".to_owned(),
            );
            Ok(())
        },
    }
}

fn add_island_stages(
    inputs: &VulkanDistributedRunnerInputs,
    island: &VulkanPhysicalExecutionIslandPlan,
    island_index: usize,
    stages: &mut Vec<VulkanDistributedRunnerStage>,
    count: usize,
) -> (outcome: Result<usize, VulkanDistributedDispatchRunnerError>)
    requires
        island.dispatches.len() > 0,
        island_rows_fit(island.deep_view()),
    ensures
        counted_stages_agree(
            outcome,
            final(stages).deep_view(),
            with_island_stages(
                inputs.deep_view(),
                island.deep_view(),
                island_index as nat,
                old(stages).deep_view(),
                count,
            ),
        ),
{
    assert(island.deep_view().dispatches[0] == island.dispatches@[0].deep_view());
    push_stage(
        stages,
        island_index,
        0,
        0,
        VulkanDistributedDeviceRequest::ResolveDevice { device_id: island.owner_device_id.clone() },
        join3(
            "failed to resolve distributed owner device ",
            quoted(island.owner_device_id.as_str()).as_str(),
            ": ",
        ),
    );
    let total: usize = match add_all_shard_stages(inputs, island, island_index, stages, count) {
        Err(error) => {
            return Err(error);
        },
        Ok(total) => total,
    };
    add_helper_stages(island, island_index, stages);
    match add_coordinator(inputs, island, island_index, stages) {
        Err(error) => Err(error),
        Ok(_) => Ok(total),
    }
}

/// The islands of a plan hold dispatches whose rows can be counted.
pub open spec fn islands_are_sound(plan: VulkanDistributedExecutionPlanModel) -> bool {
    forall|i: int|
        0 <= i < plan.execution_islands.len() ==> (
        #[trigger] plan.execution_islands[i]).dispatches.len() > 0 && island_rows_fit(
            plan.execution_islands[i],
        )
}

/// Whether the islands of a plan hold dispatches whose rows can be counted.
pub fn has_sound_islands(plan: &VulkanDistributedExecutionPlan) -> (result: bool)
    ensures
        result == islands_are_sound(plan.deep_view()),
{
    let ghost islands = plan.deep_view().execution_islands;
    for index in 0..plan.execution_islands.len()
        invariant
            islands == plan.execution_islands.deep_view(),
            forall|i: int|
                0 <= i < index ==> (#[trigger] islands[i]).dispatches.len() > 0
                    && island_rows_fit(islands[i]),
    {
        let island = &plan.execution_islands[index];
        assert(islands[index as int] == island.deep_view());
        if island.dispatches.len() == 0 || !has_fitting_rows(island) {
            assert(plan.deep_view().execution_islands[index as int] == island.deep_view());
            return false;
        }
    }
    true
}

fn has_fitting_rows(island: &VulkanPhysicalExecutionIslandPlan) -> (result: bool)
    ensures
        result == island_rows_fit(island.deep_view()),
{
    let ghost model = island.deep_view();
    for index in 0..island.dispatches.len()
        invariant
            model == island.deep_view(),
            forall|d: int, s: int|
                #![trigger model.dispatches[d].shards[s]]
                0 <= d < index && 0 <= s < model.dispatches[d].shards.len()
                    ==> model.dispatches[d].shards[s].row_start
                    + model.dispatches[d].shards[s].row_count <= usize::MAX,
    {
        let dispatch = &island.dispatches[index];
        assert(model.dispatches[index as int] == dispatch.deep_view());
        for place in 0..dispatch.shards.len()
            invariant
                model == island.deep_view(),
                index < model.dispatches.len(),
                model.dispatches[index as int] == dispatch.deep_view(),
                forall|s: int|
                    0 <= s < place ==> (
                    #[trigger] model.dispatches[index as int].shards[s]).row_start
                        + model.dispatches[index as int].shards[s].row_count <= usize::MAX,
        {
            let shard = &dispatch.shards[place];
            assert(model.dispatches[index as int].shards[place as int] == shard.deep_view());
            if shard.row_start.checked_add(shard.row_count).is_none() {
                return false;
            }
        }
    }
    true
}

/// Lists everything that devices are asked for to make the runners of a plan, and
/// counts their kernels on shards; the list ends where an error is found.
pub fn list_creation_stages(
    execution_plan: &VulkanDistributedExecutionPlan,
    inputs: &VulkanDistributedRunnerInputs,
) -> (result: (
    Vec<VulkanDistributedRunnerStage>,
    Result<usize, VulkanDistributedDispatchRunnerError>,
))
    requires
        islands_are_sound(execution_plan.deep_view()),
    ensures
        counted_stages_agree(
            result.1,
            result.0.deep_view(),
            creation_stages(inputs.deep_view(), execution_plan.deep_view()),
        ),
{
    let ghost islands = execution_plan.deep_view().execution_islands;
    let mut stages: Vec<VulkanDistributedRunnerStage> = Vec::new();
    let mut total: usize = 0;
    assert(stages.deep_view() =~= Seq::empty());
    for index in 0..execution_plan.execution_islands.len()
        invariant
            islands_are_sound(execution_plan.deep_view()),
            islands == execution_plan.execution_islands.deep_view(),
            creation_stages(inputs.deep_view(), execution_plan.deep_view()) == island_stages_from(
                inputs.deep_view(),
                islands,
                index as nat,
                stages.deep_view(),
                total,
            ),
    {
        let island = &execution_plan.execution_islands[index];
        assert(islands[index as int] == island.deep_view());
        assert(execution_plan.deep_view().execution_islands[index as int].dispatches.len() > 0);
        match add_island_stages(inputs, island, index, &mut stages, total) {
            Err(error) => {
                return (stages, Err(error));
            },
            Ok(sum) => {
                total = sum;
            },
        }
    }
    (stages, Ok(total))
}

} // verus!
