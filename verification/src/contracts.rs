//! Execution contracts: what one operation promises about its shards.
use vstd::prelude::*;

use crate::ordered::OrderedMap;
use crate::values::PlainValue;

verus! {

/// The phase in which a contract executes.
#[derive(Clone, Copy, Debug, PartialEq, Eq, Structural)]
pub enum ExecutionPhase {
    Decode,
    Prefill,
}

impl DeepView for ExecutionPhase {
    type V = ExecutionPhase;

    open spec fn deep_view(&self) -> ExecutionPhase {
        *self
    }
}

impl PlainValue for ExecutionPhase {
    fn duplicate(&self) -> (copy: Self) {
        *self
    }

    fn same(&self, other: &Self) -> (equal: bool) {
        *self == *other
    }
}

/// How many lanes one submission carries.
#[derive(Clone, Copy, Debug, PartialEq, Eq, Structural)]
pub enum ExecutionShape {
    SingleLane,
    MultiLane,
}

impl DeepView for ExecutionShape {
    type V = ExecutionShape;

    open spec fn deep_view(&self) -> ExecutionShape {
        *self
    }
}

impl PlainValue for ExecutionShape {
    fn duplicate(&self) -> (copy: Self) {
        *self
    }

    fn same(&self, other: &Self) -> (equal: bool) {
        *self == *other
    }
}

/// How a contract spreads one operation over devices.
#[derive(Clone, Copy, Debug, PartialEq, Eq, Structural)]
pub enum ExecutionStrategy {
    SingleDevice,
    TensorParallel,
    ExpertParallel,
    TensorParallelExpert,
}

impl DeepView for ExecutionStrategy {
    type V = ExecutionStrategy;

    open spec fn deep_view(&self) -> ExecutionStrategy {
        *self
    }
}

impl PlainValue for ExecutionStrategy {
    fn duplicate(&self) -> (copy: Self) {
        *self
    }

    fn same(&self, other: &Self) -> (equal: bool) {
        *self == *other
    }
}

impl ExecutionStrategy {
    /// Whether the strategy uses more than one device.
    pub open spec fn spreads(self) -> bool {
        !(self is SingleDevice)
    }

    pub fn is_distributed(&self) -> (result: bool)
        ensures
            result == self.spreads(),
    {
        match self {
            ExecutionStrategy::SingleDevice => false,
            _ => true,
        }
    }
}

/// What the shards of one operation hold.
#[derive(Clone, Copy, Debug, PartialEq, Eq, Structural)]
pub enum ExecutionForm {
    Local,
    ReplicatedInputPartitionedOutput,
    PartitionedInputPartialOutput,
    WholeExpertOwnership,
}

impl DeepView for ExecutionForm {
    type V = ExecutionForm;

    open spec fn deep_view(&self) -> ExecutionForm {
        *self
    }
}

impl PlainValue for ExecutionForm {
    fn duplicate(&self) -> (copy: Self) {
        *self
    }

    fn same(&self, other: &Self) -> (equal: bool) {
        *self == *other
    }
}

/// How an input reaches the shards.
#[derive(Clone, Copy, Debug, PartialEq, Eq, Structural)]
pub enum InputDistribution {
    Local,
    Replicated,
    Sharded,
    Routed,
}

impl DeepView for InputDistribution {
    type V = InputDistribution;

    open spec fn deep_view(&self) -> InputDistribution {
        *self
    }
}

impl PlainValue for InputDistribution {
    fn duplicate(&self) -> (copy: Self) {
        *self
    }

    fn same(&self, other: &Self) -> (equal: bool) {
        *self == *other
    }
}

/// How the outputs of the shards are brought together.
#[derive(Clone, Copy, Debug, PartialEq, Eq, Structural)]
pub enum OutputCollection {
    Local,
    Concatenated,
    Reduced,
    Routed,
    Retained,
}

impl DeepView for OutputCollection {
    type V = OutputCollection;

    open spec fn deep_view(&self) -> OutputCollection {
        *self
    }
}

impl PlainValue for OutputCollection {
    fn duplicate(&self) -> (copy: Self) {
        *self
    }

    fn same(&self, other: &Self) -> (equal: bool) {
        *self == *other
    }
}

/// The operation that joins partial outputs.
#[derive(Clone, Copy, Debug, PartialEq, Eq, Structural)]
pub enum ReductionOperation {
    SumF32,
}

impl DeepView for ReductionOperation {
    type V = ReductionOperation;

    open spec fn deep_view(&self) -> ReductionOperation {
        *self
    }
}

impl PlainValue for ReductionOperation {
    fn duplicate(&self) -> (copy: Self) {
        *self
    }

    fn same(&self, other: &Self) -> (equal: bool) {
        *self == *other
    }
}

/// What an artifact of a contract is for.
#[derive(Clone, Copy, Debug, PartialEq, Eq, Structural)]
pub enum ArtifactRole {
    Primary,
    Auxiliary,
}

impl DeepView for ArtifactRole {
    type V = ArtifactRole;

    open spec fn deep_view(&self) -> ArtifactRole {
        *self
    }
}

impl PlainValue for ArtifactRole {
    fn duplicate(&self) -> (copy: Self) {
        *self
    }

    fn same(&self, other: &Self) -> (equal: bool) {
        *self == *other
    }
}

/// How a resource of a contract becomes resident.
#[derive(Clone, Copy, Debug, PartialEq, Eq, Structural)]
pub enum ResourceKind {
    PermanentParameter,
    LazyResource,
}

impl DeepView for ResourceKind {
    type V = ResourceKind;

    open spec fn deep_view(&self) -> ResourceKind {
        *self
    }
}

impl PlainValue for ResourceKind {
    fn duplicate(&self) -> (copy: Self) {
        *self
    }

    fn same(&self, other: &Self) -> (equal: bool) {
        *self == *other
    }
}

/// How a parameter is cut into shards.
#[derive(Clone, Copy, Debug, PartialEq, Eq, Structural)]
pub enum ParameterPartitionKind {
    Contiguous,
    BlockCyclic,
}

impl DeepView for ParameterPartitionKind {
    type V = ParameterPartitionKind;

    open spec fn deep_view(&self) -> ParameterPartitionKind {
        *self
    }
}

impl PlainValue for ParameterPartitionKind {
    fn duplicate(&self) -> (copy: Self) {
        *self
    }

    fn same(&self, other: &Self) -> (equal: bool) {
        *self == *other
    }
}

/// Where a shard learns at which element it starts.
#[derive(Clone, Copy, Debug, PartialEq, Eq, Structural)]
pub enum PartitionOrigin {
    LocalZero,
    PushConstantU32,
}

impl DeepView for PartitionOrigin {
    type V = PartitionOrigin;

    open spec fn deep_view(&self) -> PartitionOrigin {
        *self
    }
}

impl PlainValue for PartitionOrigin {
    fn duplicate(&self) -> (copy: Self) {
        *self
    }

    fn same(&self, other: &Self) -> (equal: bool) {
        *self == *other
    }
}

/// How a shard uses the first workgroup dimension.
#[derive(Clone, Copy, Debug, PartialEq, Eq, Structural)]
pub enum WorkgroupXMapping {
    Partitioned,
    Repeated,
}

impl DeepView for WorkgroupXMapping {
    type V = WorkgroupXMapping;

    open spec fn deep_view(&self) -> WorkgroupXMapping {
        *self
    }
}

impl PlainValue for WorkgroupXMapping {
    fn duplicate(&self) -> (copy: Self) {
        *self
    }

    fn same(&self, other: &Self) -> (equal: bool) {
        *self == *other
    }
}

/// What happens to the joined partial outputs.
#[derive(Debug, PartialEq, Eq)]
pub enum ReductionFinalization {
    StoreF32,
    AddBf16ResidualToBf16 { residual_binding: u64 },
}

/// The model of [`ReductionFinalization`].
pub enum ReductionFinalizationModel {
    StoreF32,
    AddBf16ResidualToBf16 { residual_binding: u64 },
}

impl DeepView for ReductionFinalization {
    type V = ReductionFinalizationModel;

    open spec fn deep_view(&self) -> ReductionFinalizationModel {
        match self {
            ReductionFinalization::StoreF32 => ReductionFinalizationModel::StoreF32,
            ReductionFinalization::AddBf16ResidualToBf16 { residual_binding } =>
                ReductionFinalizationModel::AddBf16ResidualToBf16 {
                    residual_binding: residual_binding.deep_view(),
                },
        }
    }
}

impl Clone for ReductionFinalization {
    fn clone(&self) -> (copy: Self)
        ensures
            copy.deep_view() == self.deep_view(),
    {
        self.duplicate()
    }
}

impl PlainValue for ReductionFinalization {
    fn duplicate(&self) -> (copy: Self) {
        match self {
            ReductionFinalization::StoreF32 => ReductionFinalization::StoreF32,
            ReductionFinalization::AddBf16ResidualToBf16 { residual_binding } =>
                ReductionFinalization::AddBf16ResidualToBf16 {
                    residual_binding: residual_binding.duplicate(),
                },
        }
    }

    fn same(&self, other: &Self) -> (equal: bool) {
        match (self, other) {
            (ReductionFinalization::StoreF32, ReductionFinalization::StoreF32) => true,
            (
                ReductionFinalization::AddBf16ResidualToBf16 {
                    residual_binding: left_residual_binding,
                },
                ReductionFinalization::AddBf16ResidualToBf16 {
                    residual_binding: right_residual_binding,
                },
            ) => left_residual_binding.same(right_residual_binding),
            _ => false,
        }
    }
}

/// A signal that stays on the device that produced it.
#[derive(Debug, PartialEq, Eq)]
pub struct LocalIntermediateContract {
    pub signal: String,
    pub producer_binding: u64,
    pub consumer_binding: u64,
}

/// The model of [`LocalIntermediateContract`].
pub struct LocalIntermediateContractModel {
    pub signal: Seq<char>,
    pub producer_binding: u64,
    pub consumer_binding: u64,
}

impl DeepView for LocalIntermediateContract {
    type V = LocalIntermediateContractModel;

    open spec fn deep_view(&self) -> LocalIntermediateContractModel {
        LocalIntermediateContractModel {
            signal: self.signal.deep_view(),
            producer_binding: self.producer_binding.deep_view(),
            consumer_binding: self.consumer_binding.deep_view(),
        }
    }
}

impl Clone for LocalIntermediateContract {
    fn clone(&self) -> (copy: Self)
        ensures
            copy.deep_view() == self.deep_view(),
    {
        self.duplicate()
    }
}

impl PlainValue for LocalIntermediateContract {
    fn duplicate(&self) -> (copy: Self) {
        LocalIntermediateContract {
            signal: self.signal.duplicate(),
            producer_binding: self.producer_binding.duplicate(),
            consumer_binding: self.consumer_binding.duplicate(),
        }
    }

    fn same(&self, other: &Self) -> (equal: bool) {
        self.signal.same(&other.signal)
            && self.producer_binding.same(&other.producer_binding)
            && self.consumer_binding.same(&other.consumer_binding)
    }
}

/// An input of a contract.
#[derive(Clone, Copy, Debug, PartialEq, Eq, Structural)]
pub struct ContractInput {
    pub binding: u64,
    pub distribution: InputDistribution,
}

impl DeepView for ContractInput {
    type V = ContractInput;

    open spec fn deep_view(&self) -> ContractInput {
        *self
    }
}

impl PlainValue for ContractInput {
    fn duplicate(&self) -> (copy: Self) {
        *self
    }

    fn same(&self, other: &Self) -> (equal: bool) {
        *self == *other
    }
}

/// The reduction of an output.
#[derive(Debug, PartialEq, Eq)]
pub struct ContractReduction {
    pub operation: ReductionOperation,
    pub dimension_name: String,
    pub finalization: ReductionFinalization,
}

/// The model of [`ContractReduction`].
pub struct ContractReductionModel {
    pub operation: ReductionOperation,
    pub dimension_name: Seq<char>,
    pub finalization: ReductionFinalizationModel,
}

impl DeepView for ContractReduction {
    type V = ContractReductionModel;

    open spec fn deep_view(&self) -> ContractReductionModel {
        ContractReductionModel {
            operation: self.operation.deep_view(),
            dimension_name: self.dimension_name.deep_view(),
            finalization: self.finalization.deep_view(),
        }
    }
}

impl Clone for ContractReduction {
    fn clone(&self) -> (copy: Self)
        ensures
            copy.deep_view() == self.deep_view(),
    {
        self.duplicate()
    }
}

impl PlainValue for ContractReduction {
    fn duplicate(&self) -> (copy: Self) {
        ContractReduction {
            operation: self.operation.duplicate(),
            dimension_name: self.dimension_name.duplicate(),
            finalization: self.finalization.duplicate(),
        }
    }

    fn same(&self, other: &Self) -> (equal: bool) {
        self.operation.same(&other.operation)
            && self.dimension_name.same(&other.dimension_name)
            && self.finalization.same(&other.finalization)
    }
}

/// An output of a contract.
#[derive(Debug, PartialEq, Eq)]
pub struct ContractOutput {
    pub binding: u64,
    pub collection: OutputCollection,
    pub reduction: Option<ContractReduction>,
}

/// The model of [`ContractOutput`].
pub struct ContractOutputModel {
    pub binding: u64,
    pub collection: OutputCollection,
    pub reduction: Option<ContractReductionModel>,
}

impl DeepView for ContractOutput {
    type V = ContractOutputModel;

    open spec fn deep_view(&self) -> ContractOutputModel {
        ContractOutputModel {
            binding: self.binding.deep_view(),
            collection: self.collection.deep_view(),
            reduction: self.reduction.deep_view(),
        }
    }
}

impl Clone for ContractOutput {
    fn clone(&self) -> (copy: Self)
        ensures
            copy.deep_view() == self.deep_view(),
    {
        self.duplicate()
    }
}

impl PlainValue for ContractOutput {
    fn duplicate(&self) -> (copy: Self) {
        ContractOutput {
            binding: self.binding.duplicate(),
            collection: self.collection.duplicate(),
            reduction: self.reduction.duplicate(),
        }
    }

    fn same(&self, other: &Self) -> (equal: bool) {
        self.binding.same(&other.binding)
            && self.collection.same(&other.collection)
            && self.reduction.same(&other.reduction)
    }
}

/// The logical elements that are cut into shards.
#[derive(Clone, Copy, Debug, PartialEq, Eq, Structural)]
pub struct PartitionExtent {
    pub elements: u64,
    pub alignment_elements: u64,
}

impl DeepView for PartitionExtent {
    type V = PartitionExtent;

    open spec fn deep_view(&self) -> PartitionExtent {
        *self
    }
}

impl PlainValue for PartitionExtent {
    fn duplicate(&self) -> (copy: Self) {
        *self
    }

    fn same(&self, other: &Self) -> (equal: bool) {
        *self == *other
    }
}

/// How a shard is launched.
#[derive(Debug, PartialEq, Eq)]
pub struct PartitionLaunch {
    pub origin: PartitionOrigin,
    pub origin_push_constant: Option<String>,
    pub workgroup_x: WorkgroupXMapping,
    pub count_push_constant: Option<String>,
}

/// The model of [`PartitionLaunch`].
pub struct PartitionLaunchModel {
    pub origin: PartitionOrigin,
    pub origin_push_constant: Option<Seq<char>>,
    pub workgroup_x: WorkgroupXMapping,
    pub count_push_constant: Option<Seq<char>>,
}

impl DeepView for PartitionLaunch {
    type V = PartitionLaunchModel;

    open spec fn deep_view(&self) -> PartitionLaunchModel {
        PartitionLaunchModel {
            origin: self.origin.deep_view(),
            origin_push_constant: self.origin_push_constant.deep_view(),
            workgroup_x: self.workgroup_x.deep_view(),
            count_push_constant: self.count_push_constant.deep_view(),
        }
    }
}

impl Clone for PartitionLaunch {
    fn clone(&self) -> (copy: Self)
        ensures
            copy.deep_view() == self.deep_view(),
    {
        self.duplicate()
    }
}

impl PlainValue for PartitionLaunch {
    fn duplicate(&self) -> (copy: Self) {
        PartitionLaunch {
            origin: self.origin.duplicate(),
            origin_push_constant: self.origin_push_constant.duplicate(),
            workgroup_x: self.workgroup_x.duplicate(),
            count_push_constant: self.count_push_constant.duplicate(),
        }
    }

    fn same(&self, other: &Self) -> (equal: bool) {
        self.origin.same(&other.origin)
            && self.origin_push_constant.same(&other.origin_push_constant)
            && self.workgroup_x.same(&other.workgroup_x)
            && self.count_push_constant.same(&other.count_push_constant)
    }
}

/// How one parameter tensor is cut.
#[derive(Debug, PartialEq, Eq)]
pub struct ParameterPartition {
    pub binding: u64,
    pub resource: String,
    pub kind: ParameterPartitionKind,
    pub dimension: u64,
    pub alignment_elements: u64,
    pub logical_elements_per_index: u64,
}

/// The model of [`ParameterPartition`].
pub struct ParameterPartitionModel {
    pub binding: u64,
    pub resource: Seq<char>,
    pub kind: ParameterPartitionKind,
    pub dimension: u64,
    pub alignment_elements: u64,
    pub logical_elements_per_index: u64,
}

impl DeepView for ParameterPartition {
    type V = ParameterPartitionModel;

    open spec fn deep_view(&self) -> ParameterPartitionModel {
        ParameterPartitionModel {
            binding: self.binding.deep_view(),
            resource: self.resource.deep_view(),
            kind: self.kind.deep_view(),
            dimension: self.dimension.deep_view(),
            alignment_elements: self.alignment_elements.deep_view(),
            logical_elements_per_index: self.logical_elements_per_index.deep_view(),
        }
    }
}

impl Clone for ParameterPartition {
    fn clone(&self) -> (copy: Self)
        ensures
            copy.deep_view() == self.deep_view(),
    {
        self.duplicate()
    }
}

impl PlainValue for ParameterPartition {
    fn duplicate(&self) -> (copy: Self) {
        ParameterPartition {
            binding: self.binding.duplicate(),
            resource: self.resource.duplicate(),
            kind: self.kind.duplicate(),
            dimension: self.dimension.duplicate(),
            alignment_elements: self.alignment_elements.duplicate(),
            logical_elements_per_index: self.logical_elements_per_index.duplicate(),
        }
    }

    fn same(&self, other: &Self) -> (equal: bool) {
        self.binding.same(&other.binding)
            && self.resource.same(&other.resource)
            && self.kind.same(&other.kind)
            && self.dimension.same(&other.dimension)
            && self.alignment_elements.same(&other.alignment_elements)
            && self.logical_elements_per_index.same(&other.logical_elements_per_index)
    }
}

/// Resources that are selected while a dispatch runs.
#[derive(Debug, PartialEq, Eq)]
pub struct SelectedResourcePartition {
    pub selection_signal: String,
    pub address_table_binding: u64,
    pub parameter_slots_binding: u64,
    pub resource_count: u64,
    pub parameters_per_resource: u64,
}

/// The model of [`SelectedResourcePartition`].
pub struct SelectedResourcePartitionModel {
    pub selection_signal: Seq<char>,
    pub address_table_binding: u64,
    pub parameter_slots_binding: u64,
    pub resource_count: u64,
    pub parameters_per_resource: u64,
}

impl DeepView for SelectedResourcePartition {
    type V = SelectedResourcePartitionModel;

    open spec fn deep_view(&self) -> SelectedResourcePartitionModel {
        SelectedResourcePartitionModel {
            selection_signal: self.selection_signal.deep_view(),
            address_table_binding: self.address_table_binding.deep_view(),
            parameter_slots_binding: self.parameter_slots_binding.deep_view(),
            resource_count: self.resource_count.deep_view(),
            parameters_per_resource: self.parameters_per_resource.deep_view(),
        }
    }
}

impl Clone for SelectedResourcePartition {
    fn clone(&self) -> (copy: Self)
        ensures
            copy.deep_view() == self.deep_view(),
    {
        self.duplicate()
    }
}

impl PlainValue for SelectedResourcePartition {
    fn duplicate(&self) -> (copy: Self) {
        SelectedResourcePartition {
            selection_signal: self.selection_signal.duplicate(),
            address_table_binding: self.address_table_binding.duplicate(),
            parameter_slots_binding: self.parameter_slots_binding.duplicate(),
            resource_count: self.resource_count.duplicate(),
            parameters_per_resource: self.parameters_per_resource.duplicate(),
        }
    }

    fn same(&self, other: &Self) -> (equal: bool) {
        self.selection_signal.same(&other.selection_signal)
            && self.address_table_binding.same(&other.address_table_binding)
            && self.parameter_slots_binding.same(&other.parameter_slots_binding)
            && self.resource_count.same(&other.resource_count)
            && self.parameters_per_resource.same(&other.parameters_per_resource)
    }
}

/// A compiled kernel that a contract names.
#[derive(Debug, PartialEq, Eq)]
pub struct ContractArtifact {
    pub artifact_id: String,
    pub role: ArtifactRole,
    pub path: String,
    pub entry_point: String,
}

/// The model of [`ContractArtifact`].
pub struct ContractArtifactModel {
    pub artifact_id: Seq<char>,
    pub role: ArtifactRole,
    pub path: Seq<char>,
    pub entry_point: Seq<char>,
}

impl DeepView for ContractArtifact {
    type V = ContractArtifactModel;

    open spec fn deep_view(&self) -> ContractArtifactModel {
        ContractArtifactModel {
            artifact_id: self.artifact_id.deep_view(),
            role: self.role.deep_view(),
            path: self.path.deep_view(),
            entry_point: self.entry_point.deep_view(),
        }
    }
}

impl Clone for ContractArtifact {
    fn clone(&self) -> (copy: Self)
        ensures
            copy.deep_view() == self.deep_view(),
    {
        self.duplicate()
    }
}

impl PlainValue for ContractArtifact {
    fn duplicate(&self) -> (copy: Self) {
        ContractArtifact {
            artifact_id: self.artifact_id.duplicate(),
            role: self.role.duplicate(),
            path: self.path.duplicate(),
            entry_point: self.entry_point.duplicate(),
        }
    }

    fn same(&self, other: &Self) -> (equal: bool) {
        self.artifact_id.same(&other.artifact_id)
            && self.role.same(&other.role)
            && self.path.same(&other.path)
            && self.entry_point.same(&other.entry_point)
    }
}

/// How close a distributed result is to the local one.
#[derive(Clone, Copy, Debug, PartialEq, Eq, Structural)]
pub enum VulkanDistributedEquivalenceKind {
    BitExact,
    AbsoluteRelativeTolerance,
}

impl DeepView for VulkanDistributedEquivalenceKind {
    type V = VulkanDistributedEquivalenceKind;

    open spec fn deep_view(&self) -> VulkanDistributedEquivalenceKind {
        *self
    }
}

impl PlainValue for VulkanDistributedEquivalenceKind {
    fn duplicate(&self) -> (copy: Self) {
        *self
    }

    fn same(&self, other: &Self) -> (equal: bool) {
        *self == *other
    }
}

/// The equivalence that a contract promises.
#[derive(Clone, Copy, Debug, PartialEq, Eq, Structural)]
pub struct VulkanDistributedEquivalencePlan {
    pub output: VulkanDistributedEquivalenceKind,
    pub state: VulkanDistributedEquivalenceKind,
    pub absolute_tolerance_bits: Option<u64>,
    pub relative_tolerance_bits: Option<u64>,
}

impl DeepView for VulkanDistributedEquivalencePlan {
    type V = VulkanDistributedEquivalencePlan;

    open spec fn deep_view(&self) -> VulkanDistributedEquivalencePlan {
        *self
    }
}

impl PlainValue for VulkanDistributedEquivalencePlan {
    fn duplicate(&self) -> (copy: Self) {
        *self
    }

    fn same(&self, other: &Self) -> (equal: bool) {
        *self == *other
    }
}

/// A contract on how one operation executes on physical devices.
#[derive(Debug, PartialEq, Eq)]
pub struct PhysicalExecutionContract {
    pub contract_id: String,
    pub implementation_digest: String,
    /// What the contract's own validation reported, where it failed.
    pub validation_error: Option<String>,
    pub strategy: ExecutionStrategy,
    pub phases: Vec<ExecutionPhase>,
    /// The shapes that the contract supports.
    pub execution_shapes: Vec<ExecutionShape>,
    pub operation_family: String,
    pub member_node_ids: Vec<String>,
    pub artifacts: Vec<ContractArtifact>,
    /// The named extents of the contract's geometry.
    pub dimensions: OrderedMap<String, u64>,
    pub accumulation_format: String,
    pub equivalence: VulkanDistributedEquivalencePlan,
    pub partition_extent: Option<PartitionExtent>,
    pub partition_launch: Option<PartitionLaunch>,
    pub execution_form: ExecutionForm,
    pub inputs: Vec<ContractInput>,
    pub outputs: Vec<ContractOutput>,
    pub parameter_partitions: Vec<ParameterPartition>,
    pub selected_resource_partitions: Vec<SelectedResourcePartition>,
    pub local_intermediates: Vec<LocalIntermediateContract>,
    pub resource_kinds: Vec<ResourceKind>,
}

/// The model of [`PhysicalExecutionContract`].
pub struct PhysicalExecutionContractModel {
    pub contract_id: Seq<char>,
    pub implementation_digest: Seq<char>,
    pub validation_error: Option<Seq<char>>,
    pub strategy: ExecutionStrategy,
    pub phases: Seq<ExecutionPhase>,
    pub execution_shapes: Seq<ExecutionShape>,
    pub operation_family: Seq<char>,
    pub member_node_ids: Seq<Seq<char>>,
    pub artifacts: Seq<ContractArtifactModel>,
    pub dimensions: Map<Seq<char>, u64>,
    pub accumulation_format: Seq<char>,
    pub equivalence: VulkanDistributedEquivalencePlan,
    pub partition_extent: Option<PartitionExtent>,
    pub partition_launch: Option<PartitionLaunchModel>,
    pub execution_form: ExecutionForm,
    pub inputs: Seq<ContractInput>,
    pub outputs: Seq<ContractOutputModel>,
    pub parameter_partitions: Seq<ParameterPartitionModel>,
    pub selected_resource_partitions: Seq<SelectedResourcePartitionModel>,
    pub local_intermediates: Seq<LocalIntermediateContractModel>,
    pub resource_kinds: Seq<ResourceKind>,
}

impl DeepView for PhysicalExecutionContract {
    type V = PhysicalExecutionContractModel;

    open spec fn deep_view(&self) -> PhysicalExecutionContractModel {
        PhysicalExecutionContractModel {
            contract_id: self.contract_id.deep_view(),
            implementation_digest: self.implementation_digest.deep_view(),
            validation_error: self.validation_error.deep_view(),
            strategy: self.strategy.deep_view(),
            phases: self.phases.deep_view(),
            execution_shapes: self.execution_shapes.deep_view(),
            operation_family: self.operation_family.deep_view(),
            member_node_ids: self.member_node_ids.deep_view(),
            artifacts: self.artifacts.deep_view(),
            dimensions: self.dimensions.deep_view(),
            accumulation_format: self.accumulation_format.deep_view(),
            equivalence: self.equivalence.deep_view(),
            partition_extent: self.partition_extent.deep_view(),
            partition_launch: self.partition_launch.deep_view(),
            execution_form: self.execution_form.deep_view(),
            inputs: self.inputs.deep_view(),
            outputs: self.outputs.deep_view(),
            parameter_partitions: self.parameter_partitions.deep_view(),
            selected_resource_partitions: self.selected_resource_partitions.deep_view(),
            local_intermediates: self.local_intermediates.deep_view(),
            resource_kinds: self.resource_kinds.deep_view(),
        }
    }
}

impl Clone for PhysicalExecutionContract {
    fn clone(&self) -> (copy: Self)
        ensures
            copy.deep_view() == self.deep_view(),
    {
        self.duplicate()
    }
}

impl PlainValue for PhysicalExecutionContract {
    fn duplicate(&self) -> (copy: Self) {
        PhysicalExecutionContract {
            contract_id: self.contract_id.duplicate(),
            implementation_digest: self.implementation_digest.duplicate(),
            validation_error: self.validation_error.duplicate(),
            strategy: self.strategy.duplicate(),
            phases: self.phases.duplicate(),
            execution_shapes: self.execution_shapes.duplicate(),
            operation_family: self.operation_family.duplicate(),
            member_node_ids: self.member_node_ids.duplicate(),
            artifacts: self.artifacts.duplicate(),
            dimensions: self.dimensions.duplicate(),
            accumulation_format: self.accumulation_format.duplicate(),
            equivalence: self.equivalence.duplicate(),
            partition_extent: self.partition_extent.duplicate(),
            partition_launch: self.partition_launch.duplicate(),
            execution_form: self.execution_form.duplicate(),
            inputs: self.inputs.duplicate(),
            outputs: self.outputs.duplicate(),
            parameter_partitions: self.parameter_partitions.duplicate(),
            selected_resource_partitions: self.selected_resource_partitions.duplicate(),
            local_intermediates: self.local_intermediates.duplicate(),
            resource_kinds: self.resource_kinds.duplicate(),
        }
    }

    fn same(&self, other: &Self) -> (equal: bool) {
        self.contract_id.same(&other.contract_id)
            && self.implementation_digest.same(&other.implementation_digest)
            && self.validation_error.same(&other.validation_error)
            && self.strategy.same(&other.strategy)
            && self.phases.same(&other.phases)
            && self.execution_shapes.same(&other.execution_shapes)
            && self.operation_family.same(&other.operation_family)
            && self.member_node_ids.same(&other.member_node_ids)
            && self.artifacts.same(&other.artifacts)
            && self.dimensions.same(&other.dimensions)
            && self.accumulation_format.same(&other.accumulation_format)
            && self.equivalence.same(&other.equivalence)
            && self.partition_extent.same(&other.partition_extent)
            && self.partition_launch.same(&other.partition_launch)
            && self.execution_form.same(&other.execution_form)
            && self.inputs.same(&other.inputs)
            && self.outputs.same(&other.outputs)
            && self.parameter_partitions.same(&other.parameter_partitions)
            && self.selected_resource_partitions.same(&other.selected_resource_partitions)
            && self.local_intermediates.same(&other.local_intermediates)
            && self.resource_kinds.same(&other.resource_kinds)
    }
}

} // verus!
