//! Distributed execution plans and their physical execution islands.
use vstd::prelude::*;

use crate::contracts::{
    ExecutionPhase, ExecutionStrategy, InputDistribution, LocalIntermediateContract,
    LocalIntermediateContractModel, OutputCollection, ParameterPartitionKind, ReductionOperation,
    VulkanDistributedEquivalencePlan,
};
use crate::dispatch_shards::{VulkanDistributedDispatchShard, VulkanDistributedDispatchShardModel};
use crate::ordered::OrderedSet;
use crate::values::{OrderedKey, PlainValue};

verus! {

/// How a buffer is shared between devices.
#[derive(Clone, Copy, Debug, PartialEq, Eq, Structural)]
pub enum VulkanSharedResidentBufferRoute {
    ExternalDeviceLocal,
    SharedHost,
}

impl DeepView for VulkanSharedResidentBufferRoute {
    type V = VulkanSharedResidentBufferRoute;

    open spec fn deep_view(&self) -> VulkanSharedResidentBufferRoute {
        *self
    }
}

impl PlainValue for VulkanSharedResidentBufferRoute {
    fn duplicate(&self) -> (copy: Self) {
        *self
    }

    fn same(&self, other: &Self) -> (equal: bool) {
        *self == *other
    }
}

/// Which recorded sequence a submission replays.
#[derive(Clone, Copy, Debug, PartialEq, Eq, Structural)]
pub enum VulkanDistributedDispatchSequenceKind {
    Direct,
    FeedbackIndirect,
}

impl DeepView for VulkanDistributedDispatchSequenceKind {
    type V = VulkanDistributedDispatchSequenceKind;

    open spec fn deep_view(&self) -> VulkanDistributedDispatchSequenceKind {
        *self
    }
}

impl PlainValue for VulkanDistributedDispatchSequenceKind {
    fn duplicate(&self) -> (copy: Self) {
        *self
    }

    fn same(&self, other: &Self) -> (equal: bool) {
        *self == *other
    }
}

/// One submission of a distributed dispatch.
#[derive(Clone, Copy, Debug, PartialEq, Eq, Structural)]
pub struct VulkanDistributedDispatchSubmission {
    pub dependency_value: u64,
    pub consume_owner_ready_signal: bool,
    pub prepare_owner_continuation: bool,
    pub signal_completion: bool,
    pub sequence_kind: VulkanDistributedDispatchSequenceKind,
}

impl DeepView for VulkanDistributedDispatchSubmission {
    type V = VulkanDistributedDispatchSubmission;

    open spec fn deep_view(&self) -> VulkanDistributedDispatchSubmission {
        *self
    }
}

impl PlainValue for VulkanDistributedDispatchSubmission {
    fn duplicate(&self) -> (copy: Self) {
        *self
    }

    fn same(&self, other: &Self) -> (equal: bool) {
        *self == *other
    }
}

/// Where an activation is stored.
#[derive(Debug, PartialEq, Eq)]
pub enum VulkanDistributedActivationStorage {
    ActivationSlot,
    BoundaryInput,
    BoundaryOutput,
    Edge { edge_index: usize, owner_device_id: String },
}

/// The model of [`VulkanDistributedActivationStorage`].
pub enum VulkanDistributedActivationStorageModel {
    ActivationSlot,
    BoundaryInput,
    BoundaryOutput,
    Edge { edge_index: usize, owner_device_id: Seq<char> },
}

impl DeepView for VulkanDistributedActivationStorage {
    type V = VulkanDistributedActivationStorageModel;

    open spec fn deep_view(&self) -> VulkanDistributedActivationStorageModel {
        match self {
            VulkanDistributedActivationStorage::ActivationSlot =>
                VulkanDistributedActivationStorageModel::ActivationSlot,
            VulkanDistributedActivationStorage::BoundaryInput =>
                VulkanDistributedActivationStorageModel::BoundaryInput,
            VulkanDistributedActivationStorage::BoundaryOutput =>
                VulkanDistributedActivationStorageModel::BoundaryOutput,
            VulkanDistributedActivationStorage::Edge { edge_index, owner_device_id } =>
                VulkanDistributedActivationStorageModel::Edge {
                    edge_index: edge_index.deep_view(),
                    owner_device_id: owner_device_id.deep_view(),
                },
        }
    }
}

impl Clone for VulkanDistributedActivationStorage {
    fn clone(&self) -> (copy: Self)
        ensures
            copy.deep_view() == self.deep_view(),
    {
        self.duplicate()
    }
}

impl PlainValue for VulkanDistributedActivationStorage {
    fn duplicate(&self) -> (copy: Self) {
        match self {
            VulkanDistributedActivationStorage::ActivationSlot =>
                VulkanDistributedActivationStorage::ActivationSlot,
            VulkanDistributedActivationStorage::BoundaryInput =>
                VulkanDistributedActivationStorage::BoundaryInput,
            VulkanDistributedActivationStorage::BoundaryOutput =>
                VulkanDistributedActivationStorage::BoundaryOutput,
            VulkanDistributedActivationStorage::Edge { edge_index, owner_device_id } =>
                VulkanDistributedActivationStorage::Edge {
                    edge_index: edge_index.duplicate(),
                    owner_device_id: owner_device_id.duplicate(),
                },
        }
    }

    fn same(&self, other: &Self) -> (equal: bool) {
        match (self, other) {
            (
                VulkanDistributedActivationStorage::ActivationSlot,
                VulkanDistributedActivationStorage::ActivationSlot,
            ) => true,
            (
                VulkanDistributedActivationStorage::BoundaryInput,
                VulkanDistributedActivationStorage::BoundaryInput,
            ) => true,
            (
                VulkanDistributedActivationStorage::BoundaryOutput,
                VulkanDistributedActivationStorage::BoundaryOutput,
            ) => true,
            (
                VulkanDistributedActivationStorage::Edge {
                    edge_index: left_edge_index,
                    owner_device_id: left_owner_device_id,
                },
                VulkanDistributedActivationStorage::Edge {
                    edge_index: right_edge_index,
                    owner_device_id: right_owner_device_id,
                },
            ) =>
                left_edge_index.same(right_edge_index)
                    && left_owner_device_id.same(right_owner_device_id),
            _ => false,
        }
    }
}

/// The place of a storage in the order of the storages, edges left apart.
pub open spec fn storage_rank(storage: VulkanDistributedActivationStorageModel) -> int {
    match storage {
        VulkanDistributedActivationStorageModel::ActivationSlot => 0,
        VulkanDistributedActivationStorageModel::BoundaryInput => 1,
        VulkanDistributedActivationStorageModel::BoundaryOutput => 2,
        VulkanDistributedActivationStorageModel::Edge { .. } => 3,
    }
}

impl VulkanDistributedActivationStorage {
    fn rank(&self) -> (rank: u8)
        ensures
            rank == storage_rank(self.deep_view()),
    {
        match self {
            VulkanDistributedActivationStorage::ActivationSlot => 0,
            VulkanDistributedActivationStorage::BoundaryInput => 1,
            VulkanDistributedActivationStorage::BoundaryOutput => 2,
            VulkanDistributedActivationStorage::Edge { .. } => 3,
        }
    }
}

impl OrderedKey for VulkanDistributedActivationStorage {
    open spec fn before(
        left: VulkanDistributedActivationStorageModel,
        right: VulkanDistributedActivationStorageModel,
    ) -> bool {
        storage_rank(left) < storage_rank(right) || (left is Edge && right is Edge && <(
            usize,
            String,
        ) as OrderedKey>::before(
            (left->edge_index, left->owner_device_id),
            (right->edge_index, right->owner_device_id),
        ))
    }

    proof fn order_is_irreflexive(value: VulkanDistributedActivationStorageModel) {
        if value is Edge {
            <(usize, String) as OrderedKey>::order_is_irreflexive(
                (value->edge_index, value->owner_device_id),
            );
        }
    }

    proof fn order_is_transitive(
        first: VulkanDistributedActivationStorageModel,
        second: VulkanDistributedActivationStorageModel,
        third: VulkanDistributedActivationStorageModel,
    ) {
        if first is Edge && second is Edge && third is Edge {
            <(usize, String) as OrderedKey>::order_is_transitive(
                (first->edge_index, first->owner_device_id),
                (second->edge_index, second->owner_device_id),
                (third->edge_index, third->owner_device_id),
            );
        }
    }

    proof fn order_is_total(
        left: VulkanDistributedActivationStorageModel,
        right: VulkanDistributedActivationStorageModel,
    ) {
        if left is Edge && right is Edge {
            <(usize, String) as OrderedKey>::order_is_total(
                (left->edge_index, left->owner_device_id),
                (right->edge_index, right->owner_device_id),
            );
        }
    }

    fn precedes(&self, other: &Self) -> (result: bool) {
        match (self, other) {
            (
                VulkanDistributedActivationStorage::Edge {
                    edge_index: left_edge,
                    owner_device_id: left_owner,
                },
                VulkanDistributedActivationStorage::Edge {
                    edge_index: right_edge,
                    owner_device_id: right_owner,
                },
            ) => *left_edge < *right_edge || (*left_edge == *right_edge && left_owner.precedes(
                right_owner,
            )),
            _ => self.rank() < other.rank(),
        }
    }
}

/// An activation that a dispatch reads or writes.
#[derive(Debug, PartialEq, Eq)]
pub struct VulkanDistributedActivationSlot {
    pub binding: usize,
    pub component_id: String,
    pub signal_id: String,
    pub slot: usize,
    pub byte_capacity: usize,
    pub signal_byte_capacity: usize,
    pub storage: VulkanDistributedActivationStorage,
}

/// The model of [`VulkanDistributedActivationSlot`].
pub struct VulkanDistributedActivationSlotModel {
    pub binding: usize,
    pub component_id: Seq<char>,
    pub signal_id: Seq<char>,
    pub slot: usize,
    pub byte_capacity: usize,
    pub signal_byte_capacity: usize,
    pub storage: VulkanDistributedActivationStorageModel,
}

impl DeepView for VulkanDistributedActivationSlot {
    type V = VulkanDistributedActivationSlotModel;

    open spec fn deep_view(&self) -> VulkanDistributedActivationSlotModel {
        VulkanDistributedActivationSlotModel {
            binding: self.binding.deep_view(),
            component_id: self.component_id.deep_view(),
            signal_id: self.signal_id.deep_view(),
            slot: self.slot.deep_view(),
            byte_capacity: self.byte_capacity.deep_view(),
            signal_byte_capacity: self.signal_byte_capacity.deep_view(),
            storage: self.storage.deep_view(),
        }
    }
}

impl Clone for VulkanDistributedActivationSlot {
    fn clone(&self) -> (copy: Self)
        ensures
            copy.deep_view() == self.deep_view(),
    {
        self.duplicate()
    }
}

impl PlainValue for VulkanDistributedActivationSlot {
    fn duplicate(&self) -> (copy: Self) {
        VulkanDistributedActivationSlot {
            binding: self.binding.duplicate(),
            component_id: self.component_id.duplicate(),
            signal_id: self.signal_id.duplicate(),
            slot: self.slot.duplicate(),
            byte_capacity: self.byte_capacity.duplicate(),
            signal_byte_capacity: self.signal_byte_capacity.duplicate(),
            storage: self.storage.duplicate(),
        }
    }

    fn same(&self, other: &Self) -> (equal: bool) {
        self.binding.same(&other.binding)
            && self.component_id.same(&other.component_id)
            && self.signal_id.same(&other.signal_id)
            && self.slot.same(&other.slot)
            && self.byte_capacity.same(&other.byte_capacity)
            && self.signal_byte_capacity.same(&other.signal_byte_capacity)
            && self.storage.same(&other.storage)
    }
}

/// What the rows of the shards stand for.
#[derive(Clone, Copy, Debug, PartialEq, Eq, Structural)]
pub enum VulkanDistributedDispatchDistribution {
    OutputRows,
    InputColumns,
    ExpertRange,
}

impl DeepView for VulkanDistributedDispatchDistribution {
    type V = VulkanDistributedDispatchDistribution;

    open spec fn deep_view(&self) -> VulkanDistributedDispatchDistribution {
        *self
    }
}

impl PlainValue for VulkanDistributedDispatchDistribution {
    fn duplicate(&self) -> (copy: Self) {
        *self
    }

    fn same(&self, other: &Self) -> (equal: bool) {
        *self == *other
    }
}

/// What happens to the reduced output.
#[derive(Debug, PartialEq, Eq)]
pub enum VulkanDistributedReductionFinalizationPlan {
    StoreF32,
    AddBf16ResidualToBf16 { residual_input_index: usize },
}

/// The model of [`VulkanDistributedReductionFinalizationPlan`].
pub enum VulkanDistributedReductionFinalizationPlanModel {
    StoreF32,
    AddBf16ResidualToBf16 { residual_input_index: usize },
}

impl DeepView for VulkanDistributedReductionFinalizationPlan {
    type V = VulkanDistributedReductionFinalizationPlanModel;

    open spec fn deep_view(&self) -> VulkanDistributedReductionFinalizationPlanModel {
        match self {
            VulkanDistributedReductionFinalizationPlan::StoreF32 =>
                VulkanDistributedReductionFinalizationPlanModel::StoreF32,
            VulkanDistributedReductionFinalizationPlan::AddBf16ResidualToBf16 {
                residual_input_index,
            } => VulkanDistributedReductionFinalizationPlanModel::AddBf16ResidualToBf16 {
                residual_input_index: residual_input_index.deep_view(),
            },
        }
    }
}

impl Clone for VulkanDistributedReductionFinalizationPlan {
    fn clone(&self) -> (copy: Self)
        ensures
            copy.deep_view() == self.deep_view(),
    {
        self.duplicate()
    }
}

impl PlainValue for VulkanDistributedReductionFinalizationPlan {
    fn duplicate(&self) -> (copy: Self) {
        match self {
            VulkanDistributedReductionFinalizationPlan::StoreF32 =>
                VulkanDistributedReductionFinalizationPlan::StoreF32,
            VulkanDistributedReductionFinalizationPlan::AddBf16ResidualToBf16 {
                residual_input_index,
            } => VulkanDistributedReductionFinalizationPlan::AddBf16ResidualToBf16 {
                residual_input_index: residual_input_index.duplicate(),
            },
        }
    }

    fn same(&self, other: &Self) -> (equal: bool) {
        match (self, other) {
            (
                VulkanDistributedReductionFinalizationPlan::StoreF32,
                VulkanDistributedReductionFinalizationPlan::StoreF32,
            ) => true,
            (
                VulkanDistributedReductionFinalizationPlan::AddBf16ResidualToBf16 {
                    residual_input_index: left_residual_input_index,
                },
                VulkanDistributedReductionFinalizationPlan::AddBf16ResidualToBf16 {
                    residual_input_index: right_residual_input_index,
                },
            ) => left_residual_input_index.same(right_residual_input_index),
            _ => false,
        }
    }
}

/// How the partial outputs of the shards are joined.
#[derive(Debug, PartialEq, Eq)]
pub struct VulkanDistributedReductionPlan {
    pub operation: ReductionOperation,
    pub element_count: usize,
    pub partial_byte_capacity: usize,
    pub finalization: VulkanDistributedReductionFinalizationPlan,
}

/// The model of [`VulkanDistributedReductionPlan`].
pub struct VulkanDistributedReductionPlanModel {
    pub operation: ReductionOperation,
    pub element_count: usize,
    pub partial_byte_capacity: usize,
    pub finalization: VulkanDistributedReductionFinalizationPlanModel,
}

impl DeepView for VulkanDistributedReductionPlan {
    type V = VulkanDistributedReductionPlanModel;

    open spec fn deep_view(&self) -> VulkanDistributedReductionPlanModel {
        VulkanDistributedReductionPlanModel {
            operation: self.operation.deep_view(),
            element_count: self.element_count.deep_view(),
            partial_byte_capacity: self.partial_byte_capacity.deep_view(),
            finalization: self.finalization.deep_view(),
        }
    }
}

impl Clone for VulkanDistributedReductionPlan {
    fn clone(&self) -> (copy: Self)
        ensures
            copy.deep_view() == self.deep_view(),
    {
        self.duplicate()
    }
}

impl PlainValue for VulkanDistributedReductionPlan {
    fn duplicate(&self) -> (copy: Self) {
        VulkanDistributedReductionPlan {
            operation: self.operation.duplicate(),
            element_count: self.element_count.duplicate(),
            partial_byte_capacity: self.partial_byte_capacity.duplicate(),
            finalization: self.finalization.duplicate(),
        }
    }

    fn same(&self, other: &Self) -> (equal: bool) {
        self.operation.same(&other.operation)
            && self.element_count.same(&other.element_count)
            && self.partial_byte_capacity.same(&other.partial_byte_capacity)
            && self.finalization.same(&other.finalization)
    }
}

/// How one parameter of a selected resource is cut.
#[derive(Clone, Copy, Debug, PartialEq, Eq, Structural)]
pub struct VulkanDistributedSelectedResourceParameterPartitionPlan {
    pub parameter_slot: usize,
    pub dimension: usize,
    pub kind: ParameterPartitionKind,
    pub alignment_elements: usize,
    pub logical_elements_per_index: usize,
}

impl DeepView for VulkanDistributedSelectedResourceParameterPartitionPlan {
    type V = VulkanDistributedSelectedResourceParameterPartitionPlan;

    open spec fn deep_view(&self) -> VulkanDistributedSelectedResourceParameterPartitionPlan {
        *self
    }
}

impl PlainValue for VulkanDistributedSelectedResourceParameterPartitionPlan {
    fn duplicate(&self) -> (copy: Self) {
        *self
    }

    fn same(&self, other: &Self) -> (equal: bool) {
        *self == *other
    }
}

/// The resources that a dispatch selects from, with their atomic groups.
#[derive(Debug, PartialEq, Eq)]
pub struct VulkanDistributedSelectedResourcePartitionPlan {
    pub execution_scope: String,
    pub selector_id: String,
    pub node_id: String,
    pub domain_id: String,
    pub selection_signal: String,
    pub address_table_binding: usize,
    pub parameter_slots_binding: usize,
    pub resource_count: usize,
    pub parameters_per_resource: usize,
    /// How the parameters are cut where every shard owns a fragment of each
    /// resource; empty where shards own whole resources.
    pub parameter_partitions: Vec<VulkanDistributedSelectedResourceParameterPartitionPlan>,
    pub selection_count_per_activation: usize,
    pub atomic_group_ids: Vec<String>,
    pub atomic_group_byte_counts: Vec<usize>,
}

/// The model of [`VulkanDistributedSelectedResourcePartitionPlan`].
pub struct VulkanDistributedSelectedResourcePartitionPlanModel {
    pub execution_scope: Seq<char>,
    pub selector_id: Seq<char>,
    pub node_id: Seq<char>,
    pub domain_id: Seq<char>,
    pub selection_signal: Seq<char>,
    pub address_table_binding: usize,
    pub parameter_slots_binding: usize,
    pub resource_count: usize,
    pub parameters_per_resource: usize,
    pub parameter_partitions: Seq<VulkanDistributedSelectedResourceParameterPartitionPlan>,
    pub selection_count_per_activation: usize,
    pub atomic_group_ids: Seq<Seq<char>>,
    pub atomic_group_byte_counts: Seq<usize>,
}

impl DeepView for VulkanDistributedSelectedResourcePartitionPlan {
    type V = VulkanDistributedSelectedResourcePartitionPlanModel;

    open spec fn deep_view(&self) -> VulkanDistributedSelectedResourcePartitionPlanModel {
        VulkanDistributedSelectedResourcePartitionPlanModel {
            execution_scope: self.execution_scope.deep_view(),
            selector_id: self.selector_id.deep_view(),
            node_id: self.node_id.deep_view(),
            domain_id: self.domain_id.deep_view(),
            selection_signal: self.selection_signal.deep_view(),
            address_table_binding: self.address_table_binding.deep_view(),
            parameter_slots_binding: self.parameter_slots_binding.deep_view(),
            resource_count: self.resource_count.deep_view(),
            parameters_per_resource: self.parameters_per_resource.deep_view(),
            parameter_partitions: self.parameter_partitions.deep_view(),
            selection_count_per_activation: self.selection_count_per_activation.deep_view(),
            atomic_group_ids: self.atomic_group_ids.deep_view(),
            atomic_group_byte_counts: self.atomic_group_byte_counts.deep_view(),
        }
    }
}

impl Clone for VulkanDistributedSelectedResourcePartitionPlan {
    fn clone(&self) -> (copy: Self)
        ensures
            copy.deep_view() == self.deep_view(),
    {
        self.duplicate()
    }
}

impl PlainValue for VulkanDistributedSelectedResourcePartitionPlan {
    fn duplicate(&self) -> (copy: Self) {
        VulkanDistributedSelectedResourcePartitionPlan {
            execution_scope: self.execution_scope.duplicate(),
            selector_id: self.selector_id.duplicate(),
            node_id: self.node_id.duplicate(),
            domain_id: self.domain_id.duplicate(),
            selection_signal: self.selection_signal.duplicate(),
            address_table_binding: self.address_table_binding.duplicate(),
            parameter_slots_binding: self.parameter_slots_binding.duplicate(),
            resource_count: self.resource_count.duplicate(),
            parameters_per_resource: self.parameters_per_resource.duplicate(),
            parameter_partitions: self.parameter_partitions.duplicate(),
            selection_count_per_activation: self.selection_count_per_activation.duplicate(),
            atomic_group_ids: self.atomic_group_ids.duplicate(),
            atomic_group_byte_counts: self.atomic_group_byte_counts.duplicate(),
        }
    }

    fn same(&self, other: &Self) -> (equal: bool) {
        self.execution_scope.same(&other.execution_scope)
            && self.selector_id.same(&other.selector_id)
            && self.node_id.same(&other.node_id)
            && self.domain_id.same(&other.domain_id)
            && self.selection_signal.same(&other.selection_signal)
            && self.address_table_binding.same(&other.address_table_binding)
            && self.parameter_slots_binding.same(&other.parameter_slots_binding)
            && self.resource_count.same(&other.resource_count)
            && self.parameters_per_resource.same(&other.parameters_per_resource)
            && self.parameter_partitions.same(&other.parameter_partitions)
            && self.selection_count_per_activation.same(&other.selection_count_per_activation)
            && self.atomic_group_ids.same(&other.atomic_group_ids)
            && self.atomic_group_byte_counts.same(&other.atomic_group_byte_counts)
    }
}

/// What must be resident on a device.
#[derive(Clone, Copy, Debug, PartialEq, Eq, Structural)]
pub enum VulkanPhysicalExecutionResidencyKind {
    PermanentParameterShard,
    OwnerState,
    OwnerControl,
    OwnerSelectionTelemetry,
}

impl DeepView for VulkanPhysicalExecutionResidencyKind {
    type V = VulkanPhysicalExecutionResidencyKind;

    open spec fn deep_view(&self) -> VulkanPhysicalExecutionResidencyKind {
        *self
    }
}

impl PlainValue for VulkanPhysicalExecutionResidencyKind {
    fn duplicate(&self) -> (copy: Self) {
        *self
    }

    fn same(&self, other: &Self) -> (equal: bool) {
        *self == *other
    }
}

/// The place of a residency kind in the order of the kinds.
pub open spec fn residency_rank(kind: VulkanPhysicalExecutionResidencyKind) -> int {
    match kind {
        VulkanPhysicalExecutionResidencyKind::PermanentParameterShard => 0,
        VulkanPhysicalExecutionResidencyKind::OwnerState => 1,
        VulkanPhysicalExecutionResidencyKind::OwnerControl => 2,
        VulkanPhysicalExecutionResidencyKind::OwnerSelectionTelemetry => 3,
    }
}

impl VulkanPhysicalExecutionResidencyKind {
    fn rank(&self) -> (rank: u8)
        ensures
            rank == residency_rank(*self),
    {
        match self {
            VulkanPhysicalExecutionResidencyKind::PermanentParameterShard => 0,
            VulkanPhysicalExecutionResidencyKind::OwnerState => 1,
            VulkanPhysicalExecutionResidencyKind::OwnerControl => 2,
            VulkanPhysicalExecutionResidencyKind::OwnerSelectionTelemetry => 3,
        }
    }
}

impl OrderedKey for VulkanPhysicalExecutionResidencyKind {
    open spec fn before(left: Self, right: Self) -> bool {
        residency_rank(left) < residency_rank(right)
    }

    proof fn order_is_irreflexive(value: Self) {
    }

    proof fn order_is_transitive(first: Self, second: Self, third: Self) {
    }

    proof fn order_is_total(left: Self, right: Self) {
    }

    fn precedes(&self, other: &Self) -> (result: bool) {
        self.rank() < other.rank()
    }
}

/// Bytes that must be resident on a device.
#[derive(Debug, PartialEq, Eq)]
pub struct VulkanPhysicalExecutionResidencyRequirement {
    pub device_id: String,
    pub kind: VulkanPhysicalExecutionResidencyKind,
    pub resource_id: String,
    pub byte_capacity: usize,
}

/// The model of [`VulkanPhysicalExecutionResidencyRequirement`].
pub struct VulkanPhysicalExecutionResidencyRequirementModel {
    pub device_id: Seq<char>,
    pub kind: VulkanPhysicalExecutionResidencyKind,
    pub resource_id: Seq<char>,
    pub byte_capacity: usize,
}

impl DeepView for VulkanPhysicalExecutionResidencyRequirement {
    type V = VulkanPhysicalExecutionResidencyRequirementModel;

    open spec fn deep_view(&self) -> VulkanPhysicalExecutionResidencyRequirementModel {
        VulkanPhysicalExecutionResidencyRequirementModel {
            device_id: self.device_id.deep_view(),
            kind: self.kind.deep_view(),
            resource_id: self.resource_id.deep_view(),
            byte_capacity: self.byte_capacity.deep_view(),
        }
    }
}

impl Clone for VulkanPhysicalExecutionResidencyRequirement {
    fn clone(&self) -> (copy: Self)
        ensures
            copy.deep_view() == self.deep_view(),
    {
        self.duplicate()
    }
}

impl PlainValue for VulkanPhysicalExecutionResidencyRequirement {
    fn duplicate(&self) -> (copy: Self) {
        VulkanPhysicalExecutionResidencyRequirement {
            device_id: self.device_id.duplicate(),
            kind: self.kind.duplicate(),
            resource_id: self.resource_id.duplicate(),
            byte_capacity: self.byte_capacity.duplicate(),
        }
    }

    fn same(&self, other: &Self) -> (equal: bool) {
        self.device_id.same(&other.device_id)
            && self.kind.same(&other.kind)
            && self.resource_id.same(&other.resource_id)
            && self.byte_capacity.same(&other.byte_capacity)
    }
}

/// A dispatch that several devices execute together.
#[derive(Debug, PartialEq, Eq)]
pub struct VulkanDistributedDispatchPlan {
    pub owner_device_id: String,
    pub dispatch_index: usize,
    pub component_id: String,
    pub node_id: String,
    pub physical_artifact_id: String,
    pub physical_execution_contract_id: String,
    pub implementation_digest: String,
    pub execution_strategy: ExecutionStrategy,
    pub equivalence: VulkanDistributedEquivalencePlan,
    pub contract_member_node_ids: Vec<String>,
    pub local_intermediates: Vec<LocalIntermediateContract>,
    pub has_lazy_resource_requirements: bool,
    pub selected_resource_partitions: Vec<VulkanDistributedSelectedResourcePartitionPlan>,
    /// Activations that carry selections beside the inputs of the contract.
    pub selected_resource_activations: Vec<VulkanDistributedActivationSlot>,
    pub owner_residency_requirements: Vec<VulkanPhysicalExecutionResidencyRequirement>,
    pub input_byte_capacity: usize,
    pub output_byte_capacity: usize,
    pub output_rows: usize,
    pub input_width: usize,
    pub row_alignment: usize,
    pub input_activation: VulkanDistributedActivationSlot,
    pub input_distribution: InputDistribution,
    pub auxiliary_input_activations: Vec<VulkanDistributedActivationSlot>,
    pub auxiliary_input_distributions: Vec<InputDistribution>,
    pub output_activation: VulkanDistributedActivationSlot,
    pub output_collection: OutputCollection,
    pub reduction: Option<VulkanDistributedReductionPlan>,
    pub distribution: VulkanDistributedDispatchDistribution,
    pub distributed_parameter_byte_count: usize,
    pub shards: Vec<VulkanDistributedDispatchShard>,
}

/// The model of [`VulkanDistributedDispatchPlan`].
pub struct VulkanDistributedDispatchPlanModel {
    pub owner_device_id: Seq<char>,
    pub dispatch_index: usize,
    pub component_id: Seq<char>,
    pub node_id: Seq<char>,
    pub physical_artifact_id: Seq<char>,
    pub physical_execution_contract_id: Seq<char>,
    pub implementation_digest: Seq<char>,
    pub execution_strategy: ExecutionStrategy,
    pub equivalence: VulkanDistributedEquivalencePlan,
    pub contract_member_node_ids: Seq<Seq<char>>,
    pub local_intermediates: Seq<LocalIntermediateContractModel>,
    pub has_lazy_resource_requirements: bool,
    pub selected_resource_partitions: Seq<VulkanDistributedSelectedResourcePartitionPlanModel>,
    pub selected_resource_activations: Seq<VulkanDistributedActivationSlotModel>,
    pub owner_residency_requirements: Seq<VulkanPhysicalExecutionResidencyRequirementModel>,
    pub input_byte_capacity: usize,
    pub output_byte_capacity: usize,
    pub output_rows: usize,
    pub input_width: usize,
    pub row_alignment: usize,
    pub input_activation: VulkanDistributedActivationSlotModel,
    pub input_distribution: InputDistribution,
    pub auxiliary_input_activations: Seq<VulkanDistributedActivationSlotModel>,
    pub auxiliary_input_distributions: Seq<InputDistribution>,
    pub output_activation: VulkanDistributedActivationSlotModel,
    pub output_collection: OutputCollection,
    pub reduction: Option<VulkanDistributedReductionPlanModel>,
    pub distribution: VulkanDistributedDispatchDistribution,
    pub distributed_parameter_byte_count: usize,
    pub shards: Seq<VulkanDistributedDispatchShardModel>,
}

impl DeepView for VulkanDistributedDispatchPlan {
    type V = VulkanDistributedDispatchPlanModel;

    open spec fn deep_view(&self) -> VulkanDistributedDispatchPlanModel {
        VulkanDistributedDispatchPlanModel {
            owner_device_id: self.owner_device_id.deep_view(),
            dispatch_index: self.dispatch_index.deep_view(),
            component_id: self.component_id.deep_view(),
            node_id: self.node_id.deep_view(),
            physical_artifact_id: self.physical_artifact_id.deep_view(),
            physical_execution_contract_id: self.physical_execution_contract_id.deep_view(),
            implementation_digest: self.implementation_digest.deep_view(),
            execution_strategy: self.execution_strategy.deep_view(),
            equivalence: self.equivalence.deep_view(),
            contract_member_node_ids: self.contract_member_node_ids.deep_view(),
            local_intermediates: self.local_intermediates.deep_view(),
            has_lazy_resource_requirements: self.has_lazy_resource_requirements.deep_view(),
            selected_resource_partitions: self.selected_resource_partitions.deep_view(),
            selected_resource_activations: self.selected_resource_activations.deep_view(),
            owner_residency_requirements: self.owner_residency_requirements.deep_view(),
            input_byte_capacity: self.input_byte_capacity.deep_view(),
            output_byte_capacity: self.output_byte_capacity.deep_view(),
            output_rows: self.output_rows.deep_view(),
            input_width: self.input_width.deep_view(),
            row_alignment: self.row_alignment.deep_view(),
            input_activation: self.input_activation.deep_view(),
            input_distribution: self.input_distribution.deep_view(),
            auxiliary_input_activations: self.auxiliary_input_activations.deep_view(),
            auxiliary_input_distributions: self.auxiliary_input_distributions.deep_view(),
            output_activation: self.output_activation.deep_view(),
            output_collection: self.output_collection.deep_view(),
            reduction: self.reduction.deep_view(),
            distribution: self.distribution.deep_view(),
            distributed_parameter_byte_count: self.distributed_parameter_byte_count.deep_view(),
            shards: self.shards.deep_view(),
        }
    }
}

impl Clone for VulkanDistributedDispatchPlan {
    fn clone(&self) -> (copy: Self)
        ensures
            copy.deep_view() == self.deep_view(),
    {
        self.duplicate()
    }
}

impl PlainValue for VulkanDistributedDispatchPlan {
    fn duplicate(&self) -> (copy: Self) {
        VulkanDistributedDispatchPlan {
            owner_device_id: self.owner_device_id.duplicate(),
            dispatch_index: self.dispatch_index.duplicate(),
            component_id: self.component_id.duplicate(),
            node_id: self.node_id.duplicate(),
            physical_artifact_id: self.physical_artifact_id.duplicate(),
            physical_execution_contract_id: self.physical_execution_contract_id.duplicate(),
            implementation_digest: self.implementation_digest.duplicate(),
            execution_strategy: self.execution_strategy.duplicate(),
            equivalence: self.equivalence.duplicate(),
            contract_member_node_ids: self.contract_member_node_ids.duplicate(),
            local_intermediates: self.local_intermediates.duplicate(),
            has_lazy_resource_requirements: self.has_lazy_resource_requirements.duplicate(),
            selected_resource_partitions: self.selected_resource_partitions.duplicate(),
            selected_resource_activations: self.selected_resource_activations.duplicate(),
            owner_residency_requirements: self.owner_residency_requirements.duplicate(),
            input_byte_capacity: self.input_byte_capacity.duplicate(),
            output_byte_capacity: self.output_byte_capacity.duplicate(),
            output_rows: self.output_rows.duplicate(),
            input_width: self.input_width.duplicate(),
            row_alignment: self.row_alignment.duplicate(),
            input_activation: self.input_activation.duplicate(),
            input_distribution: self.input_distribution.duplicate(),
            auxiliary_input_activations: self.auxiliary_input_activations.duplicate(),
            auxiliary_input_distributions: self.auxiliary_input_distributions.duplicate(),
            output_activation: self.output_activation.duplicate(),
            output_collection: self.output_collection.duplicate(),
            reduction: self.reduction.duplicate(),
            distribution: self.distribution.duplicate(),
            distributed_parameter_byte_count: self.distributed_parameter_byte_count.duplicate(),
            shards: self.shards.duplicate(),
        }
    }

    fn same(&self, other: &Self) -> (equal: bool) {
        self.owner_device_id.same(&other.owner_device_id)
            && self.dispatch_index.same(&other.dispatch_index)
            && self.component_id.same(&other.component_id)
            && self.node_id.same(&other.node_id)
            && self.physical_artifact_id.same(&other.physical_artifact_id)
            && self.physical_execution_contract_id.same(&other.physical_execution_contract_id)
            && self.implementation_digest.same(&other.implementation_digest)
            && self.execution_strategy.same(&other.execution_strategy)
            && self.equivalence.same(&other.equivalence)
            && self.contract_member_node_ids.same(&other.contract_member_node_ids)
            && self.local_intermediates.same(&other.local_intermediates)
            && self.has_lazy_resource_requirements.same(&other.has_lazy_resource_requirements)
            && self.selected_resource_partitions.same(&other.selected_resource_partitions)
            && self.selected_resource_activations.same(&other.selected_resource_activations)
            && self.owner_residency_requirements.same(&other.owner_residency_requirements)
            && self.input_byte_capacity.same(&other.input_byte_capacity)
            && self.output_byte_capacity.same(&other.output_byte_capacity)
            && self.output_rows.same(&other.output_rows)
            && self.input_width.same(&other.input_width)
            && self.row_alignment.same(&other.row_alignment)
            && self.input_activation.same(&other.input_activation)
            && self.input_distribution.same(&other.input_distribution)
            && self.auxiliary_input_activations.same(&other.auxiliary_input_activations)
            && self.auxiliary_input_distributions.same(&other.auxiliary_input_distributions)
            && self.output_activation.same(&other.output_activation)
            && self.output_collection.same(&other.output_collection)
            && self.reduction.same(&other.reduction)
            && self.distribution.same(&other.distribution)
            && self.distributed_parameter_byte_count.same(&other.distributed_parameter_byte_count)
            && self.shards.same(&other.shards)
    }
}

/// What a device does in an island.
#[derive(Clone, Copy, Debug, PartialEq, Eq, Structural)]
pub enum VulkanPhysicalExecutionParticipantRole {
    Coordinator,
    ShardWorker,
}

impl DeepView for VulkanPhysicalExecutionParticipantRole {
    type V = VulkanPhysicalExecutionParticipantRole;

    open spec fn deep_view(&self) -> VulkanPhysicalExecutionParticipantRole {
        *self
    }
}

impl PlainValue for VulkanPhysicalExecutionParticipantRole {
    fn duplicate(&self) -> (copy: Self) {
        *self
    }

    fn same(&self, other: &Self) -> (equal: bool) {
        *self == *other
    }
}

impl OrderedKey for VulkanPhysicalExecutionParticipantRole {
    open spec fn before(left: Self, right: Self) -> bool {
        left is Coordinator && right is ShardWorker
    }

    proof fn order_is_irreflexive(value: Self) {
    }

    proof fn order_is_transitive(first: Self, second: Self, third: Self) {
    }

    proof fn order_is_total(left: Self, right: Self) {
    }

    fn precedes(&self, other: &Self) -> (result: bool) {
        match (self, other) {
            (
                VulkanPhysicalExecutionParticipantRole::Coordinator,
                VulkanPhysicalExecutionParticipantRole::ShardWorker,
            ) => true,
            _ => false,
        }
    }
}

/// A device that takes part in an island.
#[derive(Debug, PartialEq, Eq)]
pub struct VulkanPhysicalExecutionParticipant {
    pub device_id: String,
    pub roles: OrderedSet<VulkanPhysicalExecutionParticipantRole>,
}

/// The model of [`VulkanPhysicalExecutionParticipant`].
pub struct VulkanPhysicalExecutionParticipantModel {
    pub device_id: Seq<char>,
    pub roles: Set<VulkanPhysicalExecutionParticipantRole>,
}

impl DeepView for VulkanPhysicalExecutionParticipant {
    type V = VulkanPhysicalExecutionParticipantModel;

    open spec fn deep_view(&self) -> VulkanPhysicalExecutionParticipantModel {
        VulkanPhysicalExecutionParticipantModel {
            device_id: self.device_id.deep_view(),
            roles: self.roles.deep_view(),
        }
    }
}

impl Clone for VulkanPhysicalExecutionParticipant {
    fn clone(&self) -> (copy: Self)
        ensures
            copy.deep_view() == self.deep_view(),
    {
        self.duplicate()
    }
}

impl PlainValue for VulkanPhysicalExecutionParticipant {
    fn duplicate(&self) -> (copy: Self) {
        VulkanPhysicalExecutionParticipant {
            device_id: self.device_id.duplicate(),
            roles: self.roles.duplicate(),
        }
    }

    fn same(&self, other: &Self) -> (equal: bool) {
        self.device_id.same(&other.device_id)
            && self.roles.same(&other.roles)
    }
}

/// The rows of one dispatch that a device executes.
#[derive(Debug, PartialEq, Eq)]
pub struct VulkanPhysicalExecutionShardAssignment {
    pub dispatch_index: usize,
    pub node_id: String,
    pub device_id: String,
    pub distribution: VulkanDistributedDispatchDistribution,
    pub logical_start: usize,
    pub logical_count: usize,
    pub parameter_bytes: usize,
}

/// The model of [`VulkanPhysicalExecutionShardAssignment`].
pub struct VulkanPhysicalExecutionShardAssignmentModel {
    pub dispatch_index: usize,
    pub node_id: Seq<char>,
    pub device_id: Seq<char>,
    pub distribution: VulkanDistributedDispatchDistribution,
    pub logical_start: usize,
    pub logical_count: usize,
    pub parameter_bytes: usize,
}

impl DeepView for VulkanPhysicalExecutionShardAssignment {
    type V = VulkanPhysicalExecutionShardAssignmentModel;

    open spec fn deep_view(&self) -> VulkanPhysicalExecutionShardAssignmentModel {
        VulkanPhysicalExecutionShardAssignmentModel {
            dispatch_index: self.dispatch_index.deep_view(),
            node_id: self.node_id.deep_view(),
            device_id: self.device_id.deep_view(),
            distribution: self.distribution.deep_view(),
            logical_start: self.logical_start.deep_view(),
            logical_count: self.logical_count.deep_view(),
            parameter_bytes: self.parameter_bytes.deep_view(),
        }
    }
}

impl Clone for VulkanPhysicalExecutionShardAssignment {
    fn clone(&self) -> (copy: Self)
        ensures
            copy.deep_view() == self.deep_view(),
    {
        self.duplicate()
    }
}

impl PlainValue for VulkanPhysicalExecutionShardAssignment {
    fn duplicate(&self) -> (copy: Self) {
        VulkanPhysicalExecutionShardAssignment {
            dispatch_index: self.dispatch_index.duplicate(),
            node_id: self.node_id.duplicate(),
            device_id: self.device_id.duplicate(),
            distribution: self.distribution.duplicate(),
            logical_start: self.logical_start.duplicate(),
            logical_count: self.logical_count.duplicate(),
            parameter_bytes: self.parameter_bytes.duplicate(),
        }
    }

    fn same(&self, other: &Self) -> (equal: bool) {
        self.dispatch_index.same(&other.dispatch_index)
            && self.node_id.same(&other.node_id)
            && self.device_id.same(&other.device_id)
            && self.distribution.same(&other.distribution)
            && self.logical_start.same(&other.logical_start)
            && self.logical_count.same(&other.logical_count)
            && self.parameter_bytes.same(&other.parameter_bytes)
    }
}

/// How bytes travel between devices.
#[derive(Clone, Copy, Debug, PartialEq, Eq, Structural)]
pub enum VulkanPhysicalExecutionTransportKind {
    ExternalDeviceLocal,
    SharedHost,
}

impl DeepView for VulkanPhysicalExecutionTransportKind {
    type V = VulkanPhysicalExecutionTransportKind;

    open spec fn deep_view(&self) -> VulkanPhysicalExecutionTransportKind {
        *self
    }
}

impl PlainValue for VulkanPhysicalExecutionTransportKind {
    fn duplicate(&self) -> (copy: Self) {
        *self
    }

    fn same(&self, other: &Self) -> (equal: bool) {
        *self == *other
    }
}

/// A way of bytes from one device to another.
#[derive(Debug, PartialEq, Eq)]
pub struct VulkanPhysicalExecutionTransportRoute {
    pub source_device_id: String,
    pub destination_device_id: String,
    pub byte_capacity: usize,
    pub kind: VulkanPhysicalExecutionTransportKind,
}

/// The model of [`VulkanPhysicalExecutionTransportRoute`].
pub struct VulkanPhysicalExecutionTransportRouteModel {
    pub source_device_id: Seq<char>,
    pub destination_device_id: Seq<char>,
    pub byte_capacity: usize,
    pub kind: VulkanPhysicalExecutionTransportKind,
}

impl DeepView for VulkanPhysicalExecutionTransportRoute {
    type V = VulkanPhysicalExecutionTransportRouteModel;

    open spec fn deep_view(&self) -> VulkanPhysicalExecutionTransportRouteModel {
        VulkanPhysicalExecutionTransportRouteModel {
            source_device_id: self.source_device_id.deep_view(),
            destination_device_id: self.destination_device_id.deep_view(),
            byte_capacity: self.byte_capacity.deep_view(),
            kind: self.kind.deep_view(),
        }
    }
}

impl Clone for VulkanPhysicalExecutionTransportRoute {
    fn clone(&self) -> (copy: Self)
        ensures
            copy.deep_view() == self.deep_view(),
    {
        self.duplicate()
    }
}

impl PlainValue for VulkanPhysicalExecutionTransportRoute {
    fn duplicate(&self) -> (copy: Self) {
        VulkanPhysicalExecutionTransportRoute {
            source_device_id: self.source_device_id.duplicate(),
            destination_device_id: self.destination_device_id.duplicate(),
            byte_capacity: self.byte_capacity.duplicate(),
            kind: self.kind.duplicate(),
        }
    }

    fn same(&self, other: &Self) -> (equal: bool) {
        self.source_device_id.same(&other.source_device_id)
            && self.destination_device_id.same(&other.destination_device_id)
            && self.byte_capacity.same(&other.byte_capacity)
            && self.kind.same(&other.kind)
    }
}

/// How two queues wait for each other.
#[derive(Clone, Copy, Debug, PartialEq, Eq, Structural)]
pub enum VulkanPhysicalExecutionSynchronizationKind {
    TimelineSemaphore,
}

impl DeepView for VulkanPhysicalExecutionSynchronizationKind {
    type V = VulkanPhysicalExecutionSynchronizationKind;

    open spec fn deep_view(&self) -> VulkanPhysicalExecutionSynchronizationKind {
        *self
    }
}

impl PlainValue for VulkanPhysicalExecutionSynchronizationKind {
    fn duplicate(&self) -> (copy: Self) {
        *self
    }

    fn same(&self, other: &Self) -> (equal: bool) {
        *self == *other
    }
}

/// A queue that waits for another.
#[derive(Debug, PartialEq, Eq)]
pub struct VulkanPhysicalExecutionSynchronizationRoute {
    pub source_device_id: String,
    pub destination_device_id: String,
    pub kind: VulkanPhysicalExecutionSynchronizationKind,
}

/// The model of [`VulkanPhysicalExecutionSynchronizationRoute`].
pub struct VulkanPhysicalExecutionSynchronizationRouteModel {
    pub source_device_id: Seq<char>,
    pub destination_device_id: Seq<char>,
    pub kind: VulkanPhysicalExecutionSynchronizationKind,
}

impl DeepView for VulkanPhysicalExecutionSynchronizationRoute {
    type V = VulkanPhysicalExecutionSynchronizationRouteModel;

    open spec fn deep_view(&self) -> VulkanPhysicalExecutionSynchronizationRouteModel {
        VulkanPhysicalExecutionSynchronizationRouteModel {
            source_device_id: self.source_device_id.deep_view(),
            destination_device_id: self.destination_device_id.deep_view(),
            kind: self.kind.deep_view(),
        }
    }
}

impl Clone for VulkanPhysicalExecutionSynchronizationRoute {
    fn clone(&self) -> (copy: Self)
        ensures
            copy.deep_view() == self.deep_view(),
    {
        self.duplicate()
    }
}

impl PlainValue for VulkanPhysicalExecutionSynchronizationRoute {
    fn duplicate(&self) -> (copy: Self) {
        VulkanPhysicalExecutionSynchronizationRoute {
            source_device_id: self.source_device_id.duplicate(),
            destination_device_id: self.destination_device_id.duplicate(),
            kind: self.kind.duplicate(),
        }
    }

    fn same(&self, other: &Self) -> (equal: bool) {
        self.source_device_id.same(&other.source_device_id)
            && self.destination_device_id.same(&other.destination_device_id)
            && self.kind.same(&other.kind)
    }
}

/// What a step of a schedule does.
#[derive(Clone, Copy, Debug, PartialEq, Eq, Structural)]
pub enum VulkanPhysicalExecutionScheduleKind {
    PublishInputs,
    ExecuteShards,
    CollectOutputs,
}

impl DeepView for VulkanPhysicalExecutionScheduleKind {
    type V = VulkanPhysicalExecutionScheduleKind;

    open spec fn deep_view(&self) -> VulkanPhysicalExecutionScheduleKind {
        *self
    }
}

impl PlainValue for VulkanPhysicalExecutionScheduleKind {
    fn duplicate(&self) -> (copy: Self) {
        *self
    }

    fn same(&self, other: &Self) -> (equal: bool) {
        *self == *other
    }
}

/// A step of a schedule.
#[derive(Debug, PartialEq, Eq)]
pub struct VulkanPhysicalExecutionScheduleStep {
    pub ordinal: usize,
    pub dispatch_index: usize,
    pub kind: VulkanPhysicalExecutionScheduleKind,
    pub device_ids: Vec<String>,
}

/// The model of [`VulkanPhysicalExecutionScheduleStep`].
pub struct VulkanPhysicalExecutionScheduleStepModel {
    pub ordinal: usize,
    pub dispatch_index: usize,
    pub kind: VulkanPhysicalExecutionScheduleKind,
    pub device_ids: Seq<Seq<char>>,
}

impl DeepView for VulkanPhysicalExecutionScheduleStep {
    type V = VulkanPhysicalExecutionScheduleStepModel;

    open spec fn deep_view(&self) -> VulkanPhysicalExecutionScheduleStepModel {
        VulkanPhysicalExecutionScheduleStepModel {
            ordinal: self.ordinal.deep_view(),
            dispatch_index: self.dispatch_index.deep_view(),
            kind: self.kind.deep_view(),
            device_ids: self.device_ids.deep_view(),
        }
    }
}

impl Clone for VulkanPhysicalExecutionScheduleStep {
    fn clone(&self) -> (copy: Self)
        ensures
            copy.deep_view() == self.deep_view(),
    {
        self.duplicate()
    }
}

impl PlainValue for VulkanPhysicalExecutionScheduleStep {
    fn duplicate(&self) -> (copy: Self) {
        VulkanPhysicalExecutionScheduleStep {
            ordinal: self.ordinal.duplicate(),
            dispatch_index: self.dispatch_index.duplicate(),
            kind: self.kind.duplicate(),
            device_ids: self.device_ids.duplicate(),
        }
    }

    fn same(&self, other: &Self) -> (equal: bool) {
        self.ordinal.same(&other.ordinal)
            && self.dispatch_index.same(&other.dispatch_index)
            && self.kind.same(&other.kind)
            && self.device_ids.same(&other.device_ids)
    }
}

/// The schedule of an island in one phase.
#[derive(Debug, PartialEq, Eq)]
pub struct VulkanPhysicalExecutionPhaseSchedule {
    pub phase: ExecutionPhase,
    pub steps: Vec<VulkanPhysicalExecutionScheduleStep>,
}

/// The model of [`VulkanPhysicalExecutionPhaseSchedule`].
pub struct VulkanPhysicalExecutionPhaseScheduleModel {
    pub phase: ExecutionPhase,
    pub steps: Seq<VulkanPhysicalExecutionScheduleStepModel>,
}

impl DeepView for VulkanPhysicalExecutionPhaseSchedule {
    type V = VulkanPhysicalExecutionPhaseScheduleModel;

    open spec fn deep_view(&self) -> VulkanPhysicalExecutionPhaseScheduleModel {
        VulkanPhysicalExecutionPhaseScheduleModel {
            phase: self.phase.deep_view(),
            steps: self.steps.deep_view(),
        }
    }
}

impl Clone for VulkanPhysicalExecutionPhaseSchedule {
    fn clone(&self) -> (copy: Self)
        ensures
            copy.deep_view() == self.deep_view(),
    {
        self.duplicate()
    }
}

impl PlainValue for VulkanPhysicalExecutionPhaseSchedule {
    fn duplicate(&self) -> (copy: Self) {
        VulkanPhysicalExecutionPhaseSchedule {
            phase: self.phase.duplicate(),
            steps: self.steps.duplicate(),
        }
    }

    fn same(&self, other: &Self) -> (equal: bool) {
        self.phase.same(&other.phase)
            && self.steps.same(&other.steps)
    }
}

/// What transient memory holds.
#[derive(Clone, Copy, Debug, PartialEq, Eq, Structural)]
pub enum VulkanPhysicalExecutionTransientMemoryKind {
    SharedActivationAllocation,
    PrivateShardIntermediate,
}

impl DeepView for VulkanPhysicalExecutionTransientMemoryKind {
    type V = VulkanPhysicalExecutionTransientMemoryKind;

    open spec fn deep_view(&self) -> VulkanPhysicalExecutionTransientMemoryKind {
        *self
    }
}

impl PlainValue for VulkanPhysicalExecutionTransientMemoryKind {
    fn duplicate(&self) -> (copy: Self) {
        *self
    }

    fn same(&self, other: &Self) -> (equal: bool) {
        *self == *other
    }
}

/// Transient memory that an island needs on a device.
#[derive(Debug, PartialEq, Eq)]
pub struct VulkanPhysicalExecutionTransientMemoryRequirement {
    pub allocation_device_id: String,
    pub kind: VulkanPhysicalExecutionTransientMemoryKind,
    pub resource_id: String,
    pub fixed_byte_capacity: usize,
    pub per_lane_byte_capacity: usize,
}

/// The model of [`VulkanPhysicalExecutionTransientMemoryRequirement`].
pub struct VulkanPhysicalExecutionTransientMemoryRequirementModel {
    pub allocation_device_id: Seq<char>,
    pub kind: VulkanPhysicalExecutionTransientMemoryKind,
    pub resource_id: Seq<char>,
    pub fixed_byte_capacity: usize,
    pub per_lane_byte_capacity: usize,
}

impl DeepView for VulkanPhysicalExecutionTransientMemoryRequirement {
    type V = VulkanPhysicalExecutionTransientMemoryRequirementModel;

    open spec fn deep_view(&self) -> VulkanPhysicalExecutionTransientMemoryRequirementModel {
        VulkanPhysicalExecutionTransientMemoryRequirementModel {
            allocation_device_id: self.allocation_device_id.deep_view(),
            kind: self.kind.deep_view(),
            resource_id: self.resource_id.deep_view(),
            fixed_byte_capacity: self.fixed_byte_capacity.deep_view(),
            per_lane_byte_capacity: self.per_lane_byte_capacity.deep_view(),
        }
    }
}

impl Clone for VulkanPhysicalExecutionTransientMemoryRequirement {
    fn clone(&self) -> (copy: Self)
        ensures
            copy.deep_view() == self.deep_view(),
    {
        self.duplicate()
    }
}

impl PlainValue for VulkanPhysicalExecutionTransientMemoryRequirement {
    fn duplicate(&self) -> (copy: Self) {
        VulkanPhysicalExecutionTransientMemoryRequirement {
            allocation_device_id: self.allocation_device_id.duplicate(),
            kind: self.kind.duplicate(),
            resource_id: self.resource_id.duplicate(),
            fixed_byte_capacity: self.fixed_byte_capacity.duplicate(),
            per_lane_byte_capacity: self.per_lane_byte_capacity.duplicate(),
        }
    }

    fn same(&self, other: &Self) -> (equal: bool) {
        self.allocation_device_id.same(&other.allocation_device_id)
            && self.kind.same(&other.kind)
            && self.resource_id.same(&other.resource_id)
            && self.fixed_byte_capacity.same(&other.fixed_byte_capacity)
            && self.per_lane_byte_capacity.same(&other.per_lane_byte_capacity)
    }
}

/// Dispatches that execute as one recorded sequence on every participant.
#[derive(Debug, PartialEq, Eq)]
pub struct VulkanPhysicalExecutionIslandPlan {
    pub island_id: String,
    pub component_id: String,
    pub member_node_ids: Vec<String>,
    pub contract_ids: Vec<String>,
    pub implementation_digests: Vec<String>,
    pub phase_schedules: Vec<VulkanPhysicalExecutionPhaseSchedule>,
    pub entry_device_id: String,
    pub exit_device_id: String,
    pub owner_device_id: String,
    pub participants: Vec<VulkanPhysicalExecutionParticipant>,
    pub shard_assignments: Vec<VulkanPhysicalExecutionShardAssignment>,
    pub transport_routes: Vec<VulkanPhysicalExecutionTransportRoute>,
    pub synchronization_routes: Vec<VulkanPhysicalExecutionSynchronizationRoute>,
    pub residency: Vec<VulkanPhysicalExecutionResidencyRequirement>,
    pub transient_memory: Vec<VulkanPhysicalExecutionTransientMemoryRequirement>,
    pub dispatches: Vec<VulkanDistributedDispatchPlan>,
}

/// The model of [`VulkanPhysicalExecutionIslandPlan`].
pub struct VulkanPhysicalExecutionIslandPlanModel {
    pub island_id: Seq<char>,
    pub component_id: Seq<char>,
    pub member_node_ids: Seq<Seq<char>>,
    pub contract_ids: Seq<Seq<char>>,
    pub implementation_digests: Seq<Seq<char>>,
    pub phase_schedules: Seq<VulkanPhysicalExecutionPhaseScheduleModel>,
    pub entry_device_id: Seq<char>,
    pub exit_device_id: Seq<char>,
    pub owner_device_id: Seq<char>,
    pub participants: Seq<VulkanPhysicalExecutionParticipantModel>,
    pub shard_assignments: Seq<VulkanPhysicalExecutionShardAssignmentModel>,
    pub transport_routes: Seq<VulkanPhysicalExecutionTransportRouteModel>,
    pub synchronization_routes: Seq<VulkanPhysicalExecutionSynchronizationRouteModel>,
    pub residency: Seq<VulkanPhysicalExecutionResidencyRequirementModel>,
    pub transient_memory: Seq<VulkanPhysicalExecutionTransientMemoryRequirementModel>,
    pub dispatches: Seq<VulkanDistributedDispatchPlanModel>,
}

impl DeepView for VulkanPhysicalExecutionIslandPlan {
    type V = VulkanPhysicalExecutionIslandPlanModel;

    open spec fn deep_view(&self) -> VulkanPhysicalExecutionIslandPlanModel {
        VulkanPhysicalExecutionIslandPlanModel {
            island_id: self.island_id.deep_view(),
            component_id: self.component_id.deep_view(),
            member_node_ids: self.member_node_ids.deep_view(),
            contract_ids: self.contract_ids.deep_view(),
            implementation_digests: self.implementation_digests.deep_view(),
            phase_schedules: self.phase_schedules.deep_view(),
            entry_device_id: self.entry_device_id.deep_view(),
            exit_device_id: self.exit_device_id.deep_view(),
            owner_device_id: self.owner_device_id.deep_view(),
            participants: self.participants.deep_view(),
            shard_assignments: self.shard_assignments.deep_view(),
            transport_routes: self.transport_routes.deep_view(),
            synchronization_routes: self.synchronization_routes.deep_view(),
            residency: self.residency.deep_view(),
            transient_memory: self.transient_memory.deep_view(),
            dispatches: self.dispatches.deep_view(),
        }
    }
}

impl Clone for VulkanPhysicalExecutionIslandPlan {
    fn clone(&self) -> (copy: Self)
        ensures
            copy.deep_view() == self.deep_view(),
    {
        self.duplicate()
    }
}

impl PlainValue for VulkanPhysicalExecutionIslandPlan {
    fn duplicate(&self) -> (copy: Self) {
        VulkanPhysicalExecutionIslandPlan {
            island_id: self.island_id.duplicate(),
            component_id: self.component_id.duplicate(),
            member_node_ids: self.member_node_ids.duplicate(),
            contract_ids: self.contract_ids.duplicate(),
            implementation_digests: self.implementation_digests.duplicate(),
            phase_schedules: self.phase_schedules.duplicate(),
            entry_device_id: self.entry_device_id.duplicate(),
            exit_device_id: self.exit_device_id.duplicate(),
            owner_device_id: self.owner_device_id.duplicate(),
            participants: self.participants.duplicate(),
            shard_assignments: self.shard_assignments.duplicate(),
            transport_routes: self.transport_routes.duplicate(),
            synchronization_routes: self.synchronization_routes.duplicate(),
            residency: self.residency.duplicate(),
            transient_memory: self.transient_memory.duplicate(),
            dispatches: self.dispatches.duplicate(),
        }
    }

    fn same(&self, other: &Self) -> (equal: bool) {
        self.island_id.same(&other.island_id)
            && self.component_id.same(&other.component_id)
            && self.member_node_ids.same(&other.member_node_ids)
            && self.contract_ids.same(&other.contract_ids)
            && self.implementation_digests.same(&other.implementation_digests)
            && self.phase_schedules.same(&other.phase_schedules)
            && self.entry_device_id.same(&other.entry_device_id)
            && self.exit_device_id.same(&other.exit_device_id)
            && self.owner_device_id.same(&other.owner_device_id)
            && self.participants.same(&other.participants)
            && self.shard_assignments.same(&other.shard_assignments)
            && self.transport_routes.same(&other.transport_routes)
            && self.synchronization_routes.same(&other.synchronization_routes)
            && self.residency.same(&other.residency)
            && self.transient_memory.same(&other.transient_memory)
            && self.dispatches.same(&other.dispatches)
    }
}

/// The distributed dispatches of one phase.
#[derive(Debug, PartialEq, Eq)]
pub struct VulkanDistributedExecutionPlan {
    pub device_ids: Vec<String>,
    pub storage_buffer_offset_alignment: usize,
    pub dispatches: Vec<VulkanDistributedDispatchPlan>,
    pub execution_islands: Vec<VulkanPhysicalExecutionIslandPlan>,
    pub shared_activation_route: VulkanSharedResidentBufferRoute,
    pub shared_input_byte_capacity: usize,
    pub shared_output_byte_capacity: usize,
    pub distributed_parameter_byte_count: usize,
}

/// The model of [`VulkanDistributedExecutionPlan`].
pub struct VulkanDistributedExecutionPlanModel {
    pub device_ids: Seq<Seq<char>>,
    pub storage_buffer_offset_alignment: usize,
    pub dispatches: Seq<VulkanDistributedDispatchPlanModel>,
    pub execution_islands: Seq<VulkanPhysicalExecutionIslandPlanModel>,
    pub shared_activation_route: VulkanSharedResidentBufferRoute,
    pub shared_input_byte_capacity: usize,
    pub shared_output_byte_capacity: usize,
    pub distributed_parameter_byte_count: usize,
}

impl DeepView for VulkanDistributedExecutionPlan {
    type V = VulkanDistributedExecutionPlanModel;

    open spec fn deep_view(&self) -> VulkanDistributedExecutionPlanModel {
        VulkanDistributedExecutionPlanModel {
            device_ids: self.device_ids.deep_view(),
            storage_buffer_offset_alignment: self.storage_buffer_offset_alignment.deep_view(),
            dispatches: self.dispatches.deep_view(),
            execution_islands: self.execution_islands.deep_view(),
            shared_activation_route: self.shared_activation_route.deep_view(),
            shared_input_byte_capacity: self.shared_input_byte_capacity.deep_view(),
            shared_output_byte_capacity: self.shared_output_byte_capacity.deep_view(),
            distributed_parameter_byte_count: self.distributed_parameter_byte_count.deep_view(),
        }
    }
}

impl Clone for VulkanDistributedExecutionPlan {
    fn clone(&self) -> (copy: Self)
        ensures
            copy.deep_view() == self.deep_view(),
    {
        self.duplicate()
    }
}

impl PlainValue for VulkanDistributedExecutionPlan {
    fn duplicate(&self) -> (copy: Self) {
        VulkanDistributedExecutionPlan {
            device_ids: self.device_ids.duplicate(),
            storage_buffer_offset_alignment: self.storage_buffer_offset_alignment.duplicate(),
            dispatches: self.dispatches.duplicate(),
            execution_islands: self.execution_islands.duplicate(),
            shared_activation_route: self.shared_activation_route.duplicate(),
            shared_input_byte_capacity: self.shared_input_byte_capacity.duplicate(),
            shared_output_byte_capacity: self.shared_output_byte_capacity.duplicate(),
            distributed_parameter_byte_count: self.distributed_parameter_byte_count.duplicate(),
        }
    }

    fn same(&self, other: &Self) -> (equal: bool) {
        self.device_ids.same(&other.device_ids)
            && self.storage_buffer_offset_alignment.same(&other.storage_buffer_offset_alignment)
            && self.dispatches.same(&other.dispatches)
            && self.execution_islands.same(&other.execution_islands)
            && self.shared_activation_route.same(&other.shared_activation_route)
            && self.shared_input_byte_capacity.same(&other.shared_input_byte_capacity)
            && self.shared_output_byte_capacity.same(&other.shared_output_byte_capacity)
            && self.distributed_parameter_byte_count.same(&other.distributed_parameter_byte_count)
    }
}

/// The distributed plans of every phase and shape.
#[derive(Debug, PartialEq, Eq)]
pub struct VulkanDistributedExecutionPlanSet {
    pub decode: VulkanDistributedExecutionPlan,
    pub decode_batch: VulkanDistributedExecutionPlan,
    pub prefill: VulkanDistributedExecutionPlan,
}

/// The model of [`VulkanDistributedExecutionPlanSet`].
pub struct VulkanDistributedExecutionPlanSetModel {
    pub decode: VulkanDistributedExecutionPlanModel,
    pub decode_batch: VulkanDistributedExecutionPlanModel,
    pub prefill: VulkanDistributedExecutionPlanModel,
}

impl DeepView for VulkanDistributedExecutionPlanSet {
    type V = VulkanDistributedExecutionPlanSetModel;

    open spec fn deep_view(&self) -> VulkanDistributedExecutionPlanSetModel {
        VulkanDistributedExecutionPlanSetModel {
            decode: self.decode.deep_view(),
            decode_batch: self.decode_batch.deep_view(),
            prefill: self.prefill.deep_view(),
        }
    }
}

impl Clone for VulkanDistributedExecutionPlanSet {
    fn clone(&self) -> (copy: Self)
        ensures
            copy.deep_view() == self.deep_view(),
    {
        self.duplicate()
    }
}

impl PlainValue for VulkanDistributedExecutionPlanSet {
    fn duplicate(&self) -> (copy: Self) {
        VulkanDistributedExecutionPlanSet {
            decode: self.decode.duplicate(),
            decode_batch: self.decode_batch.duplicate(),
            prefill: self.prefill.duplicate(),
        }
    }

    fn same(&self, other: &Self) -> (equal: bool) {
        self.decode.same(&other.decode)
            && self.decode_batch.same(&other.decode_batch)
            && self.prefill.same(&other.prefill)
    }
}

} // verus!
