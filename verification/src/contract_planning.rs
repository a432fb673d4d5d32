//! Planning the shards of one dispatch by its contract.
use vstd::prelude::*;

use crate::arithmetic::{
    gcd, greatest_common_divisor, is_multiple, lcm, least_common_multiple,
    law_gcd_is_the_greatest_common_divisor, lemma_gcd_positive, lemma_lcm_multiple, narrow,
    narrowed,
};
use crate::contract_coverage::{coverage_fault, validate_contract_descriptor_coverage};
use crate::contract_selection::{
    origin_fault, owner_requirements, resolved_owner_residency_requirements,
    validate_partition_origin,
};
use crate::contracts::{
    ContractInput, ContractOutput, ContractOutputModel, ExecutionForm, InputDistribution,
    OutputCollection, ParameterPartition, ParameterPartitionKind, ParameterPartitionModel,
    PartitionOrigin, PhysicalExecutionContract, PhysicalExecutionContractModel,
    ReductionFinalization, ReductionFinalizationModel, ResourceKind,
};
use crate::dispatch_shards::{
    VulkanDistributedActivationRange, VulkanDistributedDispatchShard,
    VulkanDistributedDispatchShardModel, VulkanDistributedParameterFragment,
    VulkanDistributedParameterFragmentModel,
};
use crate::errors::{plan_agrees, VulkanDistributedPlanError};
use crate::execution_plans::{
    VulkanDistributedActivationSlot, VulkanDistributedActivationSlotModel,
    VulkanDistributedDispatchDistribution, VulkanDistributedDispatchPlan,
    VulkanDistributedDispatchPlanModel, VulkanDistributedReductionFinalizationPlan,
    VulkanDistributedReductionFinalizationPlanModel, VulkanDistributedReductionPlan,
    VulkanDistributedReductionPlanModel, VulkanDistributedSelectedResourcePartitionPlan,
    VulkanDistributedSelectedResourcePartitionPlanModel,
};
use crate::ordered::OrderedMap;
use crate::planning::{
    dispatch_error, distributed_activation, parameter_fragment, resolved_activation, row_fragment,
};
use crate::prepared::{
    CompiledResourceResidencyContract, CompiledResourceResidencyContractModel,
    ComponentEdgePlacement, ComponentEdgePlacementModel, TensorIndex, TensorIndexModel,
    VulkanPhysicalKernelArtifact, VulkanPhysicalKernelArtifactModel, VulkanPreparedDispatch,
    VulkanPreparedDispatchModel,
};
use crate::row_distribution::{distribute_rows, law_row_shards_tile_the_rows, row_shards};
use crate::selected_resources::{resolve_selected_resource_partitions, resolved_partitions};
use crate::sequences::{append, fold_from, index_from, kept, lemma_kept_step};
use crate::text::{
    debug_text, decimal, decimal_text, decimal_u64, join2, join3, join4, join5, join6, join7,
    quoted,
};
use crate::values::PlainValue;

verus! {

/// The bytes of one element of a boundary activation.
pub const BF16_BYTE_COUNT: usize = 2;

/// The bytes of one element of a partial output.
pub const F32_BYTE_COUNT: usize = 4;

/// A parameter tensor with the bytes and logical elements of one of its indices.
#[derive(Debug, PartialEq, Eq)]
pub struct ContractParameterSlice {
    pub binding: usize,
    pub tensor: String,
    pub bytes_per_physical_index: usize,
    pub logical_elements_per_index: usize,
}

/// The model of [`ContractParameterSlice`].
pub struct ContractParameterSliceModel {
    pub binding: usize,
    pub tensor: Seq<char>,
    pub bytes_per_physical_index: usize,
    pub logical_elements_per_index: usize,
}

impl DeepView for ContractParameterSlice {
    type V = ContractParameterSliceModel;

    open spec fn deep_view(&self) -> ContractParameterSliceModel {
        ContractParameterSliceModel {
            binding: self.binding.deep_view(),
            tensor: self.tensor.deep_view(),
            bytes_per_physical_index: self.bytes_per_physical_index.deep_view(),
            logical_elements_per_index: self.logical_elements_per_index.deep_view(),
        }
    }
}

impl Clone for ContractParameterSlice {
    fn clone(&self) -> (copy: Self)
        ensures
            copy.deep_view() == self.deep_view(),
    {
        self.duplicate()
    }
}

impl PlainValue for ContractParameterSlice {
    fn duplicate(&self) -> (copy: Self) {
        ContractParameterSlice {
            binding: self.binding.duplicate(),
            tensor: self.tensor.duplicate(),
            bytes_per_physical_index: self.bytes_per_physical_index.duplicate(),
            logical_elements_per_index: self.logical_elements_per_index.duplicate(),
        }
    }

    fn same(&self, other: &Self) -> (equal: bool) {
        self.binding.same(&other.binding)
            && self.tensor.same(&other.tensor)
            && self.bytes_per_physical_index.same(&other.bytes_per_physical_index)
            && self.logical_elements_per_index.same(&other.logical_elements_per_index)
    }
}

/// What every shard of one dispatch is cut from.
#[derive(Debug, PartialEq, Eq)]
pub struct ShardGeometry {
    pub logical_extent: usize,
    pub workgroup_elements: usize,
    pub distribution: VulkanDistributedDispatchDistribution,
    pub origin: PartitionOrigin,
    pub artifact_workgroup_count_x: u32,
    pub input_distributions: Vec<InputDistribution>,
    pub input_byte_capacities: Vec<usize>,
    pub output_collection: OutputCollection,
    pub output_byte_capacity: usize,
    pub parameter_slices: Vec<ContractParameterSlice>,
    pub selector_ids: Vec<String>,
}

/// The model of [`ShardGeometry`].
pub struct ShardGeometryModel {
    pub logical_extent: usize,
    pub workgroup_elements: usize,
    pub distribution: VulkanDistributedDispatchDistribution,
    pub origin: PartitionOrigin,
    pub artifact_workgroup_count_x: u32,
    pub input_distributions: Seq<InputDistribution>,
    pub input_byte_capacities: Seq<usize>,
    pub output_collection: OutputCollection,
    pub output_byte_capacity: usize,
    pub parameter_slices: Seq<ContractParameterSliceModel>,
    pub selector_ids: Seq<Seq<char>>,
}

impl DeepView for ShardGeometry {
    type V = ShardGeometryModel;

    open spec fn deep_view(&self) -> ShardGeometryModel {
        ShardGeometryModel {
            logical_extent: self.logical_extent.deep_view(),
            workgroup_elements: self.workgroup_elements.deep_view(),
            distribution: self.distribution.deep_view(),
            origin: self.origin.deep_view(),
            artifact_workgroup_count_x: self.artifact_workgroup_count_x.deep_view(),
            input_distributions: self.input_distributions.deep_view(),
            input_byte_capacities: self.input_byte_capacities.deep_view(),
            output_collection: self.output_collection.deep_view(),
            output_byte_capacity: self.output_byte_capacity.deep_view(),
            parameter_slices: self.parameter_slices.deep_view(),
            selector_ids: self.selector_ids.deep_view(),
        }
    }
}

impl Clone for ShardGeometry {
    fn clone(&self) -> (copy: Self)
        ensures
            copy.deep_view() == self.deep_view(),
    {
        self.duplicate()
    }
}

impl PlainValue for ShardGeometry {
    fn duplicate(&self) -> (copy: Self) {
        ShardGeometry {
            logical_extent: self.logical_extent.duplicate(),
            workgroup_elements: self.workgroup_elements.duplicate(),
            distribution: self.distribution.duplicate(),
            origin: self.origin.duplicate(),
            artifact_workgroup_count_x: self.artifact_workgroup_count_x.duplicate(),
            input_distributions: self.input_distributions.duplicate(),
            input_byte_capacities: self.input_byte_capacities.duplicate(),
            output_collection: self.output_collection.duplicate(),
            output_byte_capacity: self.output_byte_capacity.duplicate(),
            parameter_slices: self.parameter_slices.duplicate(),
            selector_ids: self.selector_ids.duplicate(),
        }
    }

    fn same(&self, other: &Self) -> (equal: bool) {
        self.logical_extent.same(&other.logical_extent)
            && self.workgroup_elements.same(&other.workgroup_elements)
            && self.distribution.same(&other.distribution)
            && self.origin.same(&other.origin)
            && self.artifact_workgroup_count_x.same(&other.artifact_workgroup_count_x)
            && self.input_distributions.same(&other.input_distributions)
            && self.input_byte_capacities.same(&other.input_byte_capacities)
            && self.output_collection.same(&other.output_collection)
            && self.output_byte_capacity.same(&other.output_byte_capacity)
            && self.parameter_slices.same(&other.parameter_slices)
            && self.selector_ids.same(&other.selector_ids)
    }
}

/// The cuts of parameters can be aligned together: at most one alignment is
/// zero, and where nothing is cut every parameter still has a ratio.
pub open spec fn partitions_are_sound(
    partitions: Seq<ParameterPartitionModel>,
    extent: int,
    alignment: int,
) -> bool {
    &&& extent == 0 ==> forall|i: int|
        0 <= i < partitions.len() ==> (#[trigger] partitions[i]).logical_elements_per_index > 0
    &&& alignment == 0 ==> forall|i: int|
        0 <= i < partitions.len() ==> (#[trigger] partitions[i]).alignment_elements > 0
    &&& forall|i: int, j: int|
        0 <= i < j < partitions.len() ==> (#[trigger] partitions[i]).alignment_elements > 0 || (
        #[trigger] partitions[j]).alignment_elements > 0
}

/// Planning by the contract never divides nothing by nothing, and the contract
/// has a distributed form. The validation of a contract guarantees more: that
/// the extent, the ratios and the alignments are all positive.
pub open spec fn contract_is_sound(contract: PhysicalExecutionContractModel) -> bool {
    match contract.partition_extent {
        None => true,
        Some(extent) => {
            &&& !(contract.execution_form is Local)
            &&& extent.elements == 0 && contract.execution_form is ReplicatedInputPartitionedOutput
                ==> extent.alignment_elements > 0
            &&& partitions_are_sound(
                contract.parameter_partitions,
                extent.elements as int,
                extent.alignment_elements as int,
            )
        },
    }
}

/// Whether planning by the contract is sound.
pub fn has_sound_numbers(contract: &PhysicalExecutionContract) -> (result: bool)
    ensures
        result == contract_is_sound(contract.deep_view()),
{
    let ghost model = contract.deep_view();
    let extent = match &contract.partition_extent {
        None => {
            return true;
        },
        Some(extent) => extent,
    };
    match contract.execution_form {
        ExecutionForm::Local => {
            return false;
        },
        ExecutionForm::ReplicatedInputPartitionedOutput => {
            if extent.elements == 0 && extent.alignment_elements == 0 {
                return false;
            }
        },
        _ => {},
    }
    let mut has_zero: bool = extent.alignment_elements == 0;
    for index in 0..contract.parameter_partitions.len()
        invariant
            model == contract.deep_view(),
            model.partition_extent == Some(extent.deep_view()),
            partitions_are_sound(
                model.parameter_partitions.take(index as int),
                extent.elements as int,
                extent.alignment_elements as int,
            ),
            !has_zero ==> extent.alignment_elements > 0 && forall|i: int|
                0 <= i < index ==> (
                #[trigger] model.parameter_partitions[i]).alignment_elements > 0,
            has_zero ==> extent.alignment_elements == 0 || exists|i: int|
                0 <= i < index && (
                #[trigger] model.parameter_partitions[i]).alignment_elements == 0,
    {
        let partition = &contract.parameter_partitions[index];
        let ghost partitions = model.parameter_partitions;
        let ghost before = partitions.take(index as int);
        let ghost after = partitions.take(index + 1);
        assert(partitions[index as int] == partition.deep_view());
        assert(forall|i: int| 0 <= i < index ==> before[i] == #[trigger] partitions[i]);
        if extent.elements == 0 && partition.logical_elements_per_index == 0 {
            return false;
        }
        if partition.alignment_elements == 0 {
            if has_zero {
                return false;
            }
            has_zero = true;
        }
        assert(forall|i: int| 0 <= i < index ==> #[trigger] after[i] == before[i]);
        assert(after[index as int] == partition.deep_view());
    }
    assert(model.parameter_partitions.take(contract.parameter_partitions.len() as int)
        =~= model.parameter_partitions);
    true
}

/// The alignment of shards at which every shard of an activation starts at an
/// aligned byte, or the text of the error.
pub open spec fn activation_alignment(
    dispatch: VulkanPreparedDispatchModel,
    alignment: usize,
    extent: usize,
    byte_capacity: usize,
    offset_alignment: usize,
    role: Seq<char>,
) -> Result<usize, Seq<char>> {
    if !is_multiple(byte_capacity as int, extent as int) {
        Err(
            dispatch.message(
                role + " activation capacity "@ + decimal_text(byte_capacity as nat)
                    + " is not divisible by logical extent "@ + decimal_text(extent as nat),
            ),
        )
    } else {
        let bytes_per_element = byte_capacity as nat / extent as nat;
        let elements = offset_alignment as nat / gcd(offset_alignment as nat, bytes_per_element);
        if lcm(alignment as nat, elements) > usize::MAX {
            Err(dispatch.message(role + " activation alignment overflowed"@))
        } else {
            Ok(lcm(alignment as nat, elements) as usize)
        }
    }
}

pub fn aligned_activation_partition(
    dispatch: &VulkanPreparedDispatch,
    current_alignment: usize,
    logical_extent: usize,
    byte_capacity: usize,
    storage_buffer_offset_alignment: usize,
    role: &str,
) -> (outcome: Result<usize, VulkanDistributedPlanError>)
    requires
        logical_extent > 0 || byte_capacity > 0,
        storage_buffer_offset_alignment > 0,
    ensures
        plan_agrees(
            outcome,
            activation_alignment(
                dispatch.deep_view(),
                current_alignment,
                logical_extent,
                byte_capacity,
                storage_buffer_offset_alignment,
                role@,
            ),
        ),
        current_alignment > 0 && outcome is Ok ==> outcome->Ok_0 > 0,
{
    if !byte_capacity.is_multiple_of(logical_extent) {
        return Err(
            dispatch_error(
                dispatch,
                join5(
                    role,
                    " activation capacity ",
                    decimal(byte_capacity).as_str(),
                    " is not divisible by logical extent ",
                    decimal(logical_extent).as_str(),
                ).as_str(),
            ),
        );
    }
    let bytes_per_element: usize = byte_capacity / logical_extent;
    let divisor: usize = greatest_common_divisor(
        storage_buffer_offset_alignment,
        bytes_per_element,
    );
    proof {
        lemma_gcd_positive(storage_buffer_offset_alignment as nat, bytes_per_element as nat);
        law_gcd_is_the_greatest_common_divisor(
            storage_buffer_offset_alignment as nat,
            bytes_per_element as nat,
            1,
        );
        let factor = choose|factor: nat|
            storage_buffer_offset_alignment == #[trigger] (divisor as nat * factor);
        assert(storage_buffer_offset_alignment / divisor >= 1) by (nonlinear_arith)
            requires
                storage_buffer_offset_alignment == divisor as nat * factor,
                storage_buffer_offset_alignment > 0,
                divisor > 0,
        ;
    }
    let offset_alignment: usize = storage_buffer_offset_alignment / divisor;
    proof {
        if current_alignment > 0 {
            lemma_lcm_multiple(current_alignment as nat, offset_alignment as nat);
        }
    }
    match least_common_multiple(current_alignment, offset_alignment) {
        None => Err(
            dispatch_error(dispatch, join2(role, " activation alignment overflowed").as_str()),
        ),
        Some(alignment) => Ok(alignment),
    }
}

/// The bytes of a run of elements of an activation, or the text of the error.
pub open spec fn proportional_range(
    dispatch: VulkanPreparedDispatchModel,
    byte_capacity: usize,
    extent: usize,
    start: usize,
    count: usize,
    role: Seq<char>,
) -> Result<VulkanDistributedActivationRange, Seq<char>> {
    if !is_multiple(byte_capacity as int, extent as int) {
        Err(
            dispatch.message(
                role + " activation capacity "@ + decimal_text(byte_capacity as nat)
                    + " is not divisible by logical extent "@ + decimal_text(extent as nat),
            ),
        )
    } else {
        let bytes_per_element = byte_capacity as int / extent as int;
        if start * bytes_per_element > usize::MAX {
            Err(dispatch.message(role + " activation offset overflowed"@))
        } else if count * bytes_per_element > usize::MAX {
            Err(dispatch.message(role + " activation size overflowed"@))
        } else {
            Ok(
                VulkanDistributedActivationRange {
                    byte_offset: (start * bytes_per_element) as usize,
                    byte_count: (count * bytes_per_element) as usize,
                },
            )
        }
    }
}

pub fn proportional_activation_range(
    dispatch: &VulkanPreparedDispatch,
    byte_capacity: usize,
    logical_extent: usize,
    logical_start: usize,
    logical_count: usize,
    role: &str,
) -> (outcome: Result<VulkanDistributedActivationRange, VulkanDistributedPlanError>)
    requires
        logical_extent > 0 || byte_capacity > 0,
    ensures
        plan_agrees(
            outcome,
            proportional_range(
                dispatch.deep_view(),
                byte_capacity,
                logical_extent,
                logical_start,
                logical_count,
                role@,
            ),
        ),
{
    if !byte_capacity.is_multiple_of(logical_extent) {
        return Err(
            dispatch_error(
                dispatch,
                join5(
                    role,
                    " activation capacity ",
                    decimal(byte_capacity).as_str(),
                    " is not divisible by logical extent ",
                    decimal(logical_extent).as_str(),
                ).as_str(),
            ),
        );
    }
    let bytes_per_element: usize = byte_capacity / logical_extent;
    match logical_start.checked_mul(bytes_per_element) {
        None => Err(
            dispatch_error(dispatch, join2(role, " activation offset overflowed").as_str()),
        ),
        Some(byte_offset) => match logical_count.checked_mul(bytes_per_element) {
            None => Err(
                dispatch_error(dispatch, join2(role, " activation size overflowed").as_str()),
            ),
            Some(byte_count) => Ok(VulkanDistributedActivationRange { byte_offset, byte_count }),
        },
    }
}

/// The bytes of an input that a shard reads, or the text of the error.
pub open spec fn input_range(
    dispatch: VulkanPreparedDispatchModel,
    distribution: InputDistribution,
    byte_capacity: usize,
    extent: usize,
    start: usize,
    count: usize,
) -> Result<VulkanDistributedActivationRange, Seq<char>> {
    if distribution is Sharded {
        proportional_range(dispatch, byte_capacity, extent, start, count, "input"@)
    } else {
        Ok(VulkanDistributedActivationRange { byte_offset: 0, byte_count: byte_capacity })
    }
}

pub fn contract_activation_range(
    dispatch: &VulkanPreparedDispatch,
    distribution: InputDistribution,
    byte_capacity: usize,
    logical_extent: usize,
    logical_start: usize,
    logical_count: usize,
) -> (outcome: Result<VulkanDistributedActivationRange, VulkanDistributedPlanError>)
    requires
        distribution is Sharded ==> logical_extent > 0 || byte_capacity > 0,
        !(distribution is Local),
    ensures
        plan_agrees(
            outcome,
            input_range(
                dispatch.deep_view(),
                distribution,
                byte_capacity,
                logical_extent,
                logical_start,
                logical_count,
            ),
        ),
{
    match distribution {
        InputDistribution::Sharded => proportional_activation_range(
            dispatch,
            byte_capacity,
            logical_extent,
            logical_start,
            logical_count,
            "input",
        ),
        _ => Ok(VulkanDistributedActivationRange { byte_offset: 0, byte_count: byte_capacity }),
    }
}

/// The bytes of the output that a shard writes, or the text of the error.
pub open spec fn output_range(
    dispatch: VulkanPreparedDispatchModel,
    collection: OutputCollection,
    byte_capacity: usize,
    extent: usize,
    start: usize,
    count: usize,
) -> Result<VulkanDistributedActivationRange, Seq<char>> {
    if collection is Concatenated {
        proportional_range(dispatch, byte_capacity, extent, start, count, "output"@)
    } else {
        Ok(VulkanDistributedActivationRange { byte_offset: 0, byte_count: byte_capacity })
    }
}

pub fn contract_output_range(
    dispatch: &VulkanPreparedDispatch,
    collection: OutputCollection,
    byte_capacity: usize,
    logical_extent: usize,
    logical_start: usize,
    logical_count: usize,
) -> (outcome: Result<VulkanDistributedActivationRange, VulkanDistributedPlanError>)
    requires
        collection is Concatenated ==> logical_extent > 0 || byte_capacity > 0,
        !(collection is Local),
    ensures
        plan_agrees(
            outcome,
            output_range(
                dispatch.deep_view(),
                collection,
                byte_capacity,
                logical_extent,
                logical_start,
                logical_count,
            ),
        ),
{
    match collection {
        OutputCollection::Concatenated => proportional_activation_range(
            dispatch,
            byte_capacity,
            logical_extent,
            logical_start,
            logical_count,
            "output",
        ),
        _ => Ok(VulkanDistributedActivationRange { byte_offset: 0, byte_count: byte_capacity }),
    }
}

/// The text of a text that may be missing.
pub open spec fn optional_text(text: Option<Seq<char>>) -> Seq<char> {
    match text {
        Some(text) => "Some("@ + debug_text(text) + ")"@,
        None => "None"@,
    }
}

/// The text of the leading extent of a shape.
pub open spec fn leading_text(shape: Seq<usize>) -> Seq<char> {
    if shape.len() == 0 {
        "None"@
    } else {
        "Some("@ + decimal_text(shape[0] as nat) + ")"@
    }
}

/// The layout lets a tensor be cut between its rows.
pub open spec fn shardable_layout(layout: Option<Seq<char>>) -> bool {
    layout == Some("row_major"@) || layout == Some("vulkan_bf16_row_pair_u32"@)
}

/// How one parameter is cut, with the alignment that it adds to the alignment of
/// the shards; or the text of the error.
pub open spec fn parameter_slice(
    dispatch: VulkanPreparedDispatchModel,
    tensors: TensorIndexModel,
    extent: usize,
    alignment: usize,
    partition: ParameterPartitionModel,
) -> Result<(usize, ContractParameterSliceModel), Seq<char>> {
    let tensor = partition.resource;
    if partition.kind is BlockCyclic {
        Err(dispatch.message("block-cyclic parameter partitioning is not implemented"@))
    } else if partition.dimension != 0 {
        Err(
            dispatch.message(
                "contiguous parameter binding "@ + decimal_text(partition.binding as nat)
                    + " partitions unsupported dimension "@ + decimal_text(
                    partition.dimension as nat,
                ),
            ),
        )
    } else if narrowed(partition.binding) is None {
        Err(dispatch.message("parameter binding exceeds usize"@))
    } else if !tensors.tensors.contains_key(tensor) {
        Err(dispatch.message("has no tensor metadata for "@ + debug_text(tensor)))
    } else if !shardable_layout(tensors.tensors[tensor].layout) {
        Err(
            dispatch.message(
                "tensor "@ + debug_text(tensor) + " has non-shardable layout "@ + optional_text(
                    tensors.tensors[tensor].layout,
                ),
            ),
        )
    } else if narrowed(partition.logical_elements_per_index) is None {
        Err(
            dispatch.message(
                "tensor "@ + debug_text(tensor) + " logical index ratio exceeds usize"@,
            ),
        )
    } else if !is_multiple(
        extent as int,
        narrowed(partition.logical_elements_per_index)->0 as int,
    ) {
        Err(
            dispatch.message(
                "tensor "@ + debug_text(tensor) + " does not divide the logical extent"@,
            ),
        )
    } else {
        let metadata = tensors.tensors[tensor];
        let elements = narrowed(partition.logical_elements_per_index)->0;
        let physical_extent = extent as int / elements as int;
        if metadata.shape.len() == 0 || metadata.shape[0] != physical_extent {
            Err(
                dispatch.message(
                    "tensor "@ + debug_text(tensor) + " leading dimension "@ + leading_text(
                        metadata.shape,
                    ) + " disagrees with contract extent "@ + decimal_text(physical_extent as nat),
                ),
            )
        } else if metadata.byte_count is None {
            Err(
                dispatch.message(
                    "parameter tensor "@ + debug_text(tensor) + " has no byte count"@,
                ),
            )
        } else if metadata.byte_count->0 == 0 || !is_multiple(
            metadata.byte_count->0 as int,
            physical_extent,
        ) {
            Err(
                dispatch.message(
                    "tensor "@ + debug_text(tensor) + " byte count "@ + decimal_text(
                        metadata.byte_count->0 as nat,
                    ) + " is not divisible by "@ + decimal_text(physical_extent as nat)
                        + " physical indices"@,
                ),
            )
        } else if narrowed(partition.alignment_elements) is None {
            Err(
                dispatch.message(
                    "tensor "@ + debug_text(tensor) + " partition alignment exceeds usize"@,
                ),
            )
        } else if narrowed(partition.alignment_elements)->0 * elements > usize::MAX {
            Err(
                dispatch.message(
                    "tensor "@ + debug_text(tensor) + " partition alignment overflowed"@,
                ),
            )
        } else {
            let physical_alignment = narrowed(partition.alignment_elements)->0;
            let row_alignment = (physical_alignment * elements) as nat;
            let packed = metadata.layout == Some("vulkan_bf16_row_pair_u32"@);
            let tensor_alignment = if packed {
                lcm(row_alignment, (2 * elements) as nat)
            } else {
                row_alignment
            };
            if packed && (2 * elements > usize::MAX || tensor_alignment > usize::MAX) {
                Err(dispatch.message("packed row alignment overflowed"@))
            } else if lcm(alignment as nat, tensor_alignment) > usize::MAX {
                Err(dispatch.message("parameter shard alignment overflowed"@))
            } else {
                Ok(
                    (
                        lcm(alignment as nat, tensor_alignment) as usize,
                        ContractParameterSliceModel {
                            binding: narrowed(partition.binding)->0,
                            tensor,
                            bytes_per_physical_index: (metadata.byte_count->0 as int
                                / physical_extent) as usize,
                            logical_elements_per_index: elements,
                        },
                    ),
                )
            }
        }
    }
}

/// Adds one parameter to the cuts and to the alignment of the shards.
pub open spec fn slice_step(
    dispatch: VulkanPreparedDispatchModel,
    tensors: TensorIndexModel,
    extent: usize,
) -> spec_fn(
    (usize, Seq<ContractParameterSliceModel>),
    ParameterPartitionModel,
) -> Result<(usize, Seq<ContractParameterSliceModel>), Seq<char>> {
    |state: (usize, Seq<ContractParameterSliceModel>), partition: ParameterPartitionModel|
        match parameter_slice(dispatch, tensors, extent, state.0, partition) {
            Err(message) => Err(message),
            Ok((alignment, slice)) => Ok((alignment, state.1.push(slice))),
        }
}

fn is_row_pair_layout(layout: &Option<String>) -> (result: bool)
    ensures
        result == (layout.deep_view() == Some("vulkan_bf16_row_pair_u32"@)),
{
    match layout {
        Some(layout) => *layout == "vulkan_bf16_row_pair_u32".to_owned(),
        None => false,
    }
}

fn is_shardable_layout(layout: &Option<String>) -> (result: bool)
    ensures
        result == shardable_layout(layout.deep_view()),
{
    match layout {
        Some(layout) => *layout == "row_major".to_owned() || *layout
            == "vulkan_bf16_row_pair_u32".to_owned(),
        None => false,
    }
}

fn written_layout(layout: &Option<String>) -> (text: String)
    ensures
        text@ == optional_text(layout.deep_view()),
{
    match layout {
        Some(layout) => join3("Some(", quoted(layout.as_str()).as_str(), ")"),
        None => "None".to_owned(),
    }
}

fn written_leading(shape: &Vec<usize>) -> (text: String)
    ensures
        text@ == leading_text(shape.deep_view()),
{
    if shape.len() == 0 {
        "None".to_owned()
    } else {
        assert(shape.deep_view()[0] == shape@[0]);
        join3("Some(", decimal(shape[0]).as_str(), ")")
    }
}

fn slice_parameter(
    dispatch: &VulkanPreparedDispatch,
    tensor_index: &TensorIndex,
    partition: &ParameterPartition,
    logical_extent: usize,
    logical_alignment: usize,
) -> (outcome: Result<(usize, ContractParameterSlice), VulkanDistributedPlanError>)
    requires
        logical_extent > 0 || partition.logical_elements_per_index > 0,
        logical_alignment > 0 || partition.alignment_elements > 0,
    ensures
        plan_agrees(
            outcome,
            parameter_slice(
                dispatch.deep_view(),
                tensor_index.deep_view(),
                logical_extent,
                logical_alignment,
                partition.deep_view(),
            ),
        ),
        outcome is Ok ==> logical_extent > 0 && outcome->Ok_0.1.logical_elements_per_index > 0,
        outcome is Ok && logical_alignment > 0 && partition.alignment_elements > 0
            ==> outcome->Ok_0.0 > 0,
{
    let tensor = &partition.resource;
    if partition.kind == ParameterPartitionKind::BlockCyclic {
        return Err(
            dispatch_error(dispatch, "block-cyclic parameter partitioning is not implemented"),
        );
    }
    if partition.dimension != 0 {
        return Err(
            dispatch_error(
                dispatch,
                join4(
                    "contiguous parameter binding ",
                    decimal_u64(partition.binding).as_str(),
                    " partitions unsupported dimension ",
                    decimal_u64(partition.dimension).as_str(),
                ).as_str(),
            ),
        );
    }
    let binding: usize = match narrow(partition.binding) {
        None => {
            return Err(dispatch_error(dispatch, "parameter binding exceeds usize"));
        },
        Some(binding) => binding,
    };
    let tensor_text = quoted(tensor.as_str());
    let metadata = match tensor_index.tensors.get(tensor) {
        None => {
            return Err(
                dispatch_error(
                    dispatch,
                    join2("has no tensor metadata for ", tensor_text.as_str()).as_str(),
                ),
            );
        },
        Some(metadata) => metadata,
    };
    if !is_shardable_layout(&metadata.layout) {
        return Err(
            dispatch_error(
                dispatch,
                join4(
                    "tensor ",
                    tensor_text.as_str(),
                    " has non-shardable layout ",
                    written_layout(&metadata.layout).as_str(),
                ).as_str(),
            ),
        );
    }
    let elements: usize = match narrow(partition.logical_elements_per_index) {
        None => {
            return Err(
                dispatch_error(
                    dispatch,
                    join3(
                        "tensor ",
                        tensor_text.as_str(),
                        " logical index ratio exceeds usize",
                    ).as_str(),
                ),
            );
        },
        Some(elements) => elements,
    };
    if !logical_extent.is_multiple_of(elements) {
        return Err(
            dispatch_error(
                dispatch,
                join3(
                    "tensor ",
                    tensor_text.as_str(),
                    " does not divide the logical extent",
                ).as_str(),
            ),
        );
    }
    let physical_extent: usize = logical_extent / elements;
    assert(logical_extent > 0 ==> physical_extent > 0) by (nonlinear_arith)
        requires
            physical_extent == logical_extent as int / elements as int,
            logical_extent as int % elements as int == 0,
            elements > 0,
    ;
    assert(logical_extent == 0 ==> physical_extent == 0) by (nonlinear_arith)
        requires
            physical_extent == logical_extent as int / elements as int,
            elements > 0,
    ;
    let ghost shape = metadata.shape.deep_view();
    assert(shape.len() > 0 ==> shape[0] == metadata.shape@[0]);
    if metadata.shape.len() == 0 || metadata.shape[0] != physical_extent {
        return Err(
            dispatch_error(
                dispatch,
                join6(
                    "tensor ",
                    tensor_text.as_str(),
                    " leading dimension ",
                    written_leading(&metadata.shape).as_str(),
                    " disagrees with contract extent ",
                    decimal(physical_extent).as_str(),
                ).as_str(),
            ),
        );
    }
    let byte_count: usize = match metadata.byte_count {
        None => {
            return Err(
                dispatch_error(
                    dispatch,
                    join3("parameter tensor ", tensor_text.as_str(), " has no byte count").as_str(),
                ),
            );
        },
        Some(byte_count) => byte_count,
    };
    if byte_count == 0 || !byte_count.is_multiple_of(physical_extent) {
        return Err(
            dispatch_error(
                dispatch,
                join7(
                    "tensor ",
                    tensor_text.as_str(),
                    " byte count ",
                    decimal(byte_count).as_str(),
                    " is not divisible by ",
                    decimal(physical_extent).as_str(),
                    " physical indices",
                ).as_str(),
            ),
        );
    }
    let physical_alignment: usize = match narrow(partition.alignment_elements) {
        None => {
            return Err(
                dispatch_error(
                    dispatch,
                    join3(
                        "tensor ",
                        tensor_text.as_str(),
                        " partition alignment exceeds usize",
                    ).as_str(),
                ),
            );
        },
        Some(alignment) => alignment,
    };
    let mut tensor_alignment: usize = match physical_alignment.checked_mul(elements) {
        None => {
            return Err(
                dispatch_error(
                    dispatch,
                    join3(
                        "tensor ",
                        tensor_text.as_str(),
                        " partition alignment overflowed",
                    ).as_str(),
                ),
            );
        },
        Some(alignment) => alignment,
    };
    assert(physical_alignment > 0 ==> tensor_alignment > 0) by (nonlinear_arith)
        requires
            tensor_alignment == physical_alignment * elements,
            elements > 0,
    ;
    if is_row_pair_layout(&metadata.layout) {
        let pair: usize = match 2usize.checked_mul(elements) {
            None => {
                return Err(dispatch_error(dispatch, "packed row alignment overflowed"));
            },
            Some(pair) => pair,
        };
        proof {
            if tensor_alignment > 0 {
                lemma_lcm_multiple(tensor_alignment as nat, pair as nat);
            }
        }
        tensor_alignment = match least_common_multiple(tensor_alignment, pair) {
            None => {
                return Err(dispatch_error(dispatch, "packed row alignment overflowed"));
            },
            Some(alignment) => alignment,
        };
    }
    proof {
        if logical_alignment > 0 && tensor_alignment > 0 {
            lemma_lcm_multiple(logical_alignment as nat, tensor_alignment as nat);
        }
    }
    match least_common_multiple(logical_alignment, tensor_alignment) {
        None => Err(dispatch_error(dispatch, "parameter shard alignment overflowed")),
        Some(alignment) => Ok(
            (
                alignment,
                ContractParameterSlice {
                    binding,
                    tensor: tensor.clone(),
                    bytes_per_physical_index: byte_count / physical_extent,
                    logical_elements_per_index: elements,
                },
            ),
        ),
    }
}

/// Cuts the parameters of a contract, and aligns the shards to the cuts.
pub fn contract_parameter_slices(
    dispatch: &VulkanPreparedDispatch,
    tensor_index: &TensorIndex,
    contract: &PhysicalExecutionContract,
    logical_extent: usize,
    logical_alignment: usize,
) -> (outcome: Result<(usize, Vec<ContractParameterSlice>), VulkanDistributedPlanError>)
    requires
        partitions_are_sound(
            contract.deep_view().parameter_partitions,
            logical_extent as int,
            logical_alignment as int,
        ),
    ensures
        plan_agrees(
            outcome,
            fold_from(
                contract.deep_view().parameter_partitions,
                0,
                (logical_alignment, Seq::empty()),
                slice_step(dispatch.deep_view(), tensor_index.deep_view(), logical_extent),
            ),
        ),
        outcome is Ok && logical_extent == 0 ==> outcome->Ok_0.0 == logical_alignment,
        outcome is Ok ==> forall|i: int|
            0 <= i < outcome->Ok_0.1.len() ==> (
            #[trigger] outcome->Ok_0.1@[i]).logical_elements_per_index > 0,
{
    let ghost all = contract.deep_view().parameter_partitions;
    let ghost step = slice_step(dispatch.deep_view(), tensor_index.deep_view(), logical_extent);
    let mut alignment: usize = logical_alignment;
    let mut slices: Vec<ContractParameterSlice> = Vec::new();
    assert(slices.deep_view() =~= Seq::empty());
    for index in 0..contract.parameter_partitions.len()
        invariant
            partitions_are_sound(all, logical_extent as int, logical_alignment as int),
            all == contract.deep_view().parameter_partitions,
            logical_extent == 0 ==> alignment == logical_alignment,
            alignment == 0 ==> forall|i: int|
                index <= i < all.len() ==> (#[trigger] all[i]).alignment_elements > 0,
            step == slice_step(dispatch.deep_view(), tensor_index.deep_view(), logical_extent),
            fold_from(all, 0, (logical_alignment, Seq::empty()), step) == fold_from(
                all,
                index as nat,
                (alignment, slices.deep_view()),
                step,
            ),
            forall|i: int|
                0 <= i < slices.len() ==> (#[trigger] slices@[i]).logical_elements_per_index > 0,
    {
        let partition = &contract.parameter_partitions[index];
        assert(all[index as int] == partition.deep_view());
        match slice_parameter(dispatch, tensor_index, partition, logical_extent, alignment) {
            Err(error) => {
                return Err(error);
            },
            Ok((next, slice)) => {
                alignment = next;
                append(&mut slices, slice);
            },
        }
    }
    Ok((alignment, slices))
}

/// Adds one input with its activation, and aligns the shards to it.
pub open spec fn input_step(
    dispatch: VulkanPreparedDispatchModel,
    extent: usize,
    offset_alignment: usize,
    edges: Seq<ComponentEdgePlacementModel>,
) -> spec_fn((usize, Seq<VulkanDistributedActivationSlotModel>), ContractInput) -> Result<
    (usize, Seq<VulkanDistributedActivationSlotModel>),
    Seq<char>,
> {
    |state: (usize, Seq<VulkanDistributedActivationSlotModel>), input: ContractInput|
        if input.distribution is Local {
            Err(
                dispatch.message(
                    "distributed contract marks input binding "@ + decimal_text(
                        input.binding as nat,
                    ) + " as local"@,
                ),
            )
        } else if narrowed(input.binding) is None {
            Err(dispatch.message("input binding exceeds usize"@))
        } else {
            match resolved_activation(
                dispatch,
                narrowed(input.binding)->0,
                1,
                "contract input"@,
                edges,
                BF16_BYTE_COUNT,
            ) {
                Err(message) => Err(message),
                Ok(activation) => if input.distribution is Sharded {
                    match activation_alignment(
                        dispatch,
                        state.0,
                        extent,
                        activation.signal_byte_capacity,
                        offset_alignment,
                        "input"@,
                    ) {
                        Err(message) => Err(message),
                        Ok(alignment) => Ok((alignment, state.1.push(activation))),
                    }
                } else {
                    Ok((state.0, state.1.push(activation)))
                },
            }
        }
}

fn plan_inputs(
    dispatch: &VulkanPreparedDispatch,
    contract: &PhysicalExecutionContract,
    logical_extent: usize,
    logical_alignment: usize,
    storage_buffer_offset_alignment: usize,
    edge_placements: &[ComponentEdgePlacement],
) -> (outcome: Result<(usize, Vec<VulkanDistributedActivationSlot>), VulkanDistributedPlanError>)
    requires
        storage_buffer_offset_alignment > 0,
    ensures
        plan_agrees(
            outcome,
            fold_from(
                contract.deep_view().inputs,
                0,
                (logical_alignment, Seq::empty()),
                input_step(
                    dispatch.deep_view(),
                    logical_extent,
                    storage_buffer_offset_alignment,
                    edge_placements.deep_view(),
                ),
            ),
        ),
        outcome is Ok && logical_alignment > 0 ==> outcome->Ok_0.0 > 0,
        outcome is Ok ==> outcome->Ok_0.1.len() == contract.inputs.len() && forall|i: int|
            0 <= i < contract.inputs.len() ==> !((
            #[trigger] contract.inputs@[i]).distribution is Local),
{
    let ghost all = contract.deep_view().inputs;
    let ghost step = input_step(
        dispatch.deep_view(),
        logical_extent,
        storage_buffer_offset_alignment,
        edge_placements.deep_view(),
    );
    let mut alignment: usize = logical_alignment;
    let mut inputs: Vec<VulkanDistributedActivationSlot> = Vec::new();
    assert(inputs.deep_view() =~= Seq::empty());
    for index in 0..contract.inputs.len()
        invariant
            logical_alignment > 0 ==> alignment > 0,
            storage_buffer_offset_alignment > 0,
            inputs.len() == index,
            all == contract.deep_view().inputs,
            step == input_step(
                dispatch.deep_view(),
                logical_extent,
                storage_buffer_offset_alignment,
                edge_placements.deep_view(),
            ),
            fold_from(all, 0, (logical_alignment, Seq::empty()), step) == fold_from(
                all,
                index as nat,
                (alignment, inputs.deep_view()),
                step,
            ),
            forall|i: int|
                0 <= i < index ==> !((#[trigger] contract.inputs@[i]).distribution is Local),
    {
        let input = &contract.inputs[index];
        assert(all[index as int] == *input);
        if input.distribution == InputDistribution::Local {
            return Err(
                dispatch_error(
                    dispatch,
                    join3(
                        "distributed contract marks input binding ",
                        decimal_u64(input.binding).as_str(),
                        " as local",
                    ).as_str(),
                ),
            );
        }
        let binding: usize = match narrow(input.binding) {
            None => {
                return Err(dispatch_error(dispatch, "input binding exceeds usize"));
            },
            Some(binding) => binding,
        };
        let activation = match distributed_activation(
            dispatch,
            binding,
            1,
            "contract input",
            edge_placements,
            BF16_BYTE_COUNT,
        ) {
            Err(error) => {
                return Err(error);
            },
            Ok(activation) => activation,
        };
        if input.distribution == InputDistribution::Sharded {
            alignment = match aligned_activation_partition(
                dispatch,
                alignment,
                logical_extent,
                activation.signal_byte_capacity,
                storage_buffer_offset_alignment,
                "input",
            ) {
                Err(error) => {
                    return Err(error);
                },
                Ok(next) => next,
            };
        }
        append(&mut inputs, activation);
    }
    Ok((alignment, inputs))
}

/// The input stands at a binding.
pub open spec fn input_at(binding: u64) -> spec_fn(ContractInput) -> bool {
    |input: ContractInput| input.binding == binding
}

/// How the partial outputs of the shards are joined, where they are; or the text
/// of the error.
pub open spec fn planned_reduction(
    dispatch: VulkanPreparedDispatchModel,
    contract: PhysicalExecutionContractModel,
    output: ContractOutputModel,
    inputs: Seq<VulkanDistributedActivationSlotModel>,
    output_activation: VulkanDistributedActivationSlotModel,
) -> Result<Option<VulkanDistributedReductionPlanModel>, Seq<char>> {
    if output.reduction is None {
        Ok(None)
    } else if contract.accumulation_format != "f32"@ {
        Err(
            dispatch.message(
                "reduced output requires f32 accumulation, contract declares "@ + debug_text(
                    contract.accumulation_format,
                ),
            ),
        )
    } else if !contract.dimensions.contains_key(output.reduction->0.dimension_name) {
        Err(
            dispatch.message(
                "reduction dimension "@ + debug_text(output.reduction->0.dimension_name)
                    + " is not declared"@,
            ),
        )
    } else if narrowed(contract.dimensions[output.reduction->0.dimension_name]) is None {
        Err(dispatch.message("reduction element count exceeds usize"@))
    } else {
        let reduction = output.reduction->0;
        let element_count = narrowed(contract.dimensions[reduction.dimension_name])->0;
        let output_bytes = output_activation.signal_byte_capacity;
        if element_count * F32_BYTE_COUNT > usize::MAX {
            Err(dispatch.message("reduction partial byte capacity overflowed"@))
        } else {
            let partial_byte_capacity = (element_count * F32_BYTE_COUNT) as usize;
            match reduction.finalization {
                ReductionFinalizationModel::StoreF32 => if output_bytes != partial_byte_capacity {
                    Err(
                        dispatch.message(
                            "sum_f32 reduction produces "@ + decimal_text(
                                partial_byte_capacity as nat,
                            ) + " bytes but output signal "@ + output_activation.signal_id
                                + " has "@ + decimal_text(output_bytes as nat) + " bytes"@,
                        ),
                    )
                } else {
                    Ok(
                        Some(
                            VulkanDistributedReductionPlanModel {
                                operation: reduction.operation,
                                element_count,
                                partial_byte_capacity,
                                finalization:
                                    VulkanDistributedReductionFinalizationPlanModel::StoreF32,
                            },
                        ),
                    )
                },
                ReductionFinalizationModel::AddBf16ResidualToBf16 { residual_binding } => {
                    let position = index_from(contract.inputs, 0, input_at(residual_binding));
                    if element_count % 2 != 0 {
                        Err(
                            dispatch.message(
                                "BF16 reduction finalization requires an even element count"@,
                            ),
                        )
                    } else if position is None {
                        Err(dispatch.message("BF16 reduction residual binding is absent"@))
                    } else {
                        let residual_bytes = inputs[position->0 as int].signal_byte_capacity;
                        let bf16_bytes = (element_count * 2) as usize;
                        if residual_bytes != bf16_bytes || output_bytes != bf16_bytes {
                            Err(
                                dispatch.message(
                                    "BF16 reduction finalization requires "@ + decimal_text(
                                        bf16_bytes as nat,
                                    ) + " residual and output bytes, found "@ + decimal_text(
                                        residual_bytes as nat,
                                    ) + " and "@ + decimal_text(output_bytes as nat),
                                ),
                            )
                        } else {
                            Ok(
                                Some(
                                    VulkanDistributedReductionPlanModel {
                                        operation: reduction.operation,
                                        element_count,
                                        partial_byte_capacity,
                                        finalization:
                                            VulkanDistributedReductionFinalizationPlanModel::AddBf16ResidualToBf16 {
                                            residual_input_index: position->0 as usize,
                                        },
                                    },
                                ),
                            )
                        }
                    }
                },
            }
        }
    }
}

fn plan_reduction(
    dispatch: &VulkanPreparedDispatch,
    contract: &PhysicalExecutionContract,
    output: &ContractOutput,
    inputs: &Vec<VulkanDistributedActivationSlot>,
    output_activation: &VulkanDistributedActivationSlot,
) -> (outcome: Result<Option<VulkanDistributedReductionPlan>, VulkanDistributedPlanError>)
    requires
        inputs.len() == contract.inputs.len(),
    ensures
        plan_agrees(
            outcome,
            planned_reduction(
                dispatch.deep_view(),
                contract.deep_view(),
                output.deep_view(),
                inputs.deep_view(),
                output_activation.deep_view(),
            ),
        ),
{
    let reduction = match &output.reduction {
        None => {
            return Ok(None);
        },
        Some(reduction) => reduction,
    };
    if contract.accumulation_format != "f32".to_owned() {
        return Err(
            dispatch_error(
                dispatch,
                join2(
                    "reduced output requires f32 accumulation, contract declares ",
                    quoted(contract.accumulation_format.as_str()).as_str(),
                ).as_str(),
            ),
        );
    }
    let element_count: usize = match contract.dimensions.get(&reduction.dimension_name) {
        None => {
            return Err(
                dispatch_error(
                    dispatch,
                    join3(
                        "reduction dimension ",
                        quoted(reduction.dimension_name.as_str()).as_str(),
                        " is not declared",
                    ).as_str(),
                ),
            );
        },
        Some(elements) => match narrow(*elements) {
            None => {
                return Err(dispatch_error(dispatch, "reduction element count exceeds usize"));
            },
            Some(elements) => elements,
        },
    };
    let partial_byte_capacity: usize = match element_count.checked_mul(F32_BYTE_COUNT) {
        None => {
            return Err(dispatch_error(dispatch, "reduction partial byte capacity overflowed"));
        },
        Some(bytes) => bytes,
    };
    let finalization = match &reduction.finalization {
        ReductionFinalization::StoreF32 => {
            if output_activation.signal_byte_capacity != partial_byte_capacity {
                return Err(
                    dispatch_error(
                        dispatch,
                        join7(
                            "sum_f32 reduction produces ",
                            decimal(partial_byte_capacity).as_str(),
                            " bytes but output signal ",
                            output_activation.signal_id.as_str(),
                            " has ",
                            decimal(output_activation.signal_byte_capacity).as_str(),
                            " bytes",
                        ).as_str(),
                    ),
                );
            }
            VulkanDistributedReductionFinalizationPlan::StoreF32
        },
        ReductionFinalization::AddBf16ResidualToBf16 { residual_binding } => {
            if element_count % 2 != 0 {
                return Err(
                    dispatch_error(
                        dispatch,
                        "BF16 reduction finalization requires an even element count",
                    ),
                );
            }
            let ghost all = contract.deep_view().inputs;
            let ghost condition = input_at(*residual_binding);
            let mut position: usize = 0;
            while position < contract.inputs.len() && contract.inputs[position].binding
                != *residual_binding
                invariant
                    all == contract.deep_view().inputs,
                    condition == input_at(*residual_binding),
                    position <= contract.inputs.len(),
                    index_from(all, 0, condition) == index_from(all, position as nat, condition),
                decreases contract.inputs.len() - position,
            {
                assert(all[position as int] == contract.inputs@[position as int]);
                position += 1;
            }
            if position == contract.inputs.len() {
                return Err(dispatch_error(dispatch, "BF16 reduction residual binding is absent"));
            }
            assert(all[position as int] == contract.inputs@[position as int]);
            assert(inputs.deep_view()[position as int] == inputs@[position as int].deep_view());
            let bf16_bytes: usize = element_count * 2;
            let residual_bytes: usize = inputs[position].signal_byte_capacity;
            if residual_bytes != bf16_bytes || output_activation.signal_byte_capacity
                != bf16_bytes {
                return Err(
                    dispatch_error(
                        dispatch,
                        join6(
                            "BF16 reduction finalization requires ",
                            decimal(bf16_bytes).as_str(),
                            " residual and output bytes, found ",
                            decimal(residual_bytes).as_str(),
                            " and ",
                            decimal(output_activation.signal_byte_capacity).as_str(),
                        ).as_str(),
                    ),
                );
            }
            VulkanDistributedReductionFinalizationPlan::AddBf16ResidualToBf16 {
                residual_input_index: position,
            }
        },
    };
    Ok(
        Some(
            VulkanDistributedReductionPlan {
                operation: reduction.operation,
                element_count,
                partial_byte_capacity,
                finalization,
            },
        ),
    )
}

/// Adds the bytes of one parameter that a run of elements occupies.
pub open spec fn fragment_step(
    dispatch: VulkanPreparedDispatchModel,
    start: usize,
    count: usize,
) -> spec_fn(
    Seq<VulkanDistributedParameterFragmentModel>,
    ContractParameterSliceModel,
) -> Result<Seq<VulkanDistributedParameterFragmentModel>, Seq<char>> {
    |found: Seq<VulkanDistributedParameterFragmentModel>, slice: ContractParameterSliceModel|
        if !is_multiple(start as int, slice.logical_elements_per_index as int) || !is_multiple(
            count as int,
            slice.logical_elements_per_index as int,
        ) {
            Err(
                dispatch.message(
                    "logical shard "@ + decimal_text(start as nat) + ".."@ + decimal_text(
                        (start + count) as nat,
                    ) + " does not align tensor "@ + debug_text(slice.tensor),
                ),
            )
        } else {
            match row_fragment(
                dispatch,
                slice.binding,
                slice.tensor,
                slice.bytes_per_physical_index,
                (start as int / slice.logical_elements_per_index as int) as usize,
                (count as int / slice.logical_elements_per_index as int) as usize,
            ) {
                Err(message) => Err(message),
                Ok(fragment) => Ok(found.push(fragment)),
            }
        }
}

fn shard_parameters(
    dispatch: &VulkanPreparedDispatch,
    slices: &Vec<ContractParameterSlice>,
    logical_start: usize,
    logical_count: usize,
) -> (outcome: Result<Vec<VulkanDistributedParameterFragment>, VulkanDistributedPlanError>)
    requires
        logical_start + logical_count <= usize::MAX,
        forall|i: int|
            0 <= i < slices.len() ==> (#[trigger] slices@[i]).logical_elements_per_index > 0,
    ensures
        plan_agrees(
            outcome,
            fold_from(
                slices.deep_view(),
                0,
                Seq::empty(),
                fragment_step(dispatch.deep_view(), logical_start, logical_count),
            ),
        ),
{
    let ghost all = slices.deep_view();
    let ghost step = fragment_step(dispatch.deep_view(), logical_start, logical_count);
    let mut parameters: Vec<VulkanDistributedParameterFragment> = Vec::new();
    assert(parameters.deep_view() =~= Seq::empty());
    for index in 0..slices.len()
        invariant
            logical_start + logical_count <= usize::MAX,
            forall|i: int|
                0 <= i < slices.len() ==> (#[trigger] slices@[i]).logical_elements_per_index > 0,
            all == slices.deep_view(),
            step == fragment_step(dispatch.deep_view(), logical_start, logical_count),
            fold_from(all, 0, Seq::empty(), step) == fold_from(
                all,
                index as nat,
                parameters.deep_view(),
                step,
            ),
    {
        let slice = &slices[index];
        assert(all[index as int] == slice.deep_view());
        let elements: usize = slice.logical_elements_per_index;
        if !logical_start.is_multiple_of(elements) || !logical_count.is_multiple_of(elements) {
            return Err(
                dispatch_error(
                    dispatch,
                    join6(
                        "logical shard ",
                        decimal(logical_start).as_str(),
                        "..",
                        decimal(logical_start + logical_count).as_str(),
                        " does not align tensor ",
                        quoted(slice.tensor.as_str()).as_str(),
                    ).as_str(),
                ),
            );
        }
        match parameter_fragment(
            slice.binding,
            slice.tensor.as_str(),
            slice.bytes_per_physical_index,
            logical_start / elements,
            logical_count / elements,
            dispatch,
        ) {
            Err(error) => {
                return Err(error);
            },
            Ok(fragment) => {
                append(&mut parameters, fragment);
            },
        }
    }
    Ok(parameters)
}

/// Adds the bytes of one fragment to the distributed bytes.
pub open spec fn distributed_bytes_step(dispatch: VulkanPreparedDispatchModel) -> spec_fn(
    usize,
    VulkanDistributedParameterFragmentModel,
) -> Result<usize, Seq<char>> {
    |total: usize, fragment: VulkanDistributedParameterFragmentModel|
        if total + fragment.byte_count > usize::MAX {
            Err(dispatch.message("distributed parameter byte count overflowed"@))
        } else {
            Ok((total + fragment.byte_count) as usize)
        }
}

fn distributed_bytes(
    dispatch: &VulkanPreparedDispatch,
    parameters: &Vec<VulkanDistributedParameterFragment>,
    before: usize,
) -> (outcome: Result<usize, VulkanDistributedPlanError>)
    ensures
        plan_agrees(
            outcome,
            fold_from(
                parameters.deep_view(),
                0,
                before,
                distributed_bytes_step(dispatch.deep_view()),
            ),
        ),
{
    let ghost all = parameters.deep_view();
    let ghost step = distributed_bytes_step(dispatch.deep_view());
    let mut total: usize = before;
    for index in 0..parameters.len()
        invariant
            all == parameters.deep_view(),
            step == distributed_bytes_step(dispatch.deep_view()),
            fold_from(all, 0, before, step) == fold_from(all, index as nat, total, step),
    {
        assert(all[index as int] == parameters@[index as int].deep_view());
        match total.checked_add(parameters[index].byte_count) {
            None => {
                return Err(dispatch_error(dispatch, "distributed parameter byte count overflowed"));
            },
            Some(sum) => {
                total = sum;
            },
        }
    }
    Ok(total)
}

/// The bytes of the inputs that a shard reads, from an input on, behind those
/// found already; or the text of the error.
pub open spec fn input_ranges_from(
    dispatch: VulkanPreparedDispatchModel,
    geometry: ShardGeometryModel,
    start: usize,
    count: usize,
    index: nat,
    found: Seq<VulkanDistributedActivationRange>,
) -> Result<Seq<VulkanDistributedActivationRange>, Seq<char>>
    decreases geometry.input_distributions.len() - index,
{
    if index >= geometry.input_distributions.len() {
        Ok(found)
    } else {
        match input_range(
            dispatch,
            geometry.input_distributions[index as int],
            geometry.input_byte_capacities[index as int],
            geometry.logical_extent,
            start,
            count,
        ) {
            Err(message) => Err(message),
            Ok(range) => input_ranges_from(
                dispatch,
                geometry,
                start,
                count,
                index + 1,
                found.push(range),
            ),
        }
    }
}

/// Every selector owns the same run of resources.
pub open spec fn range_ownership(selector_ids: Seq<Seq<char>>, start: usize, count: usize) -> Map<
    Seq<char>,
    Seq<usize>,
>
    decreases selector_ids.len(),
{
    if selector_ids.len() == 0 {
        Map::empty()
    } else {
        range_ownership(selector_ids.drop_last(), start, count).insert(
            selector_ids.last(),
            Seq::new(count as nat, |i: int| (start + i) as usize),
        )
    }
}

/// The shard that a device executes, with the distributed bytes up to it; or the
/// text of the error.
pub open spec fn planned_shard(
    dispatch: VulkanPreparedDispatchModel,
    geometry: ShardGeometryModel,
    device_id: Seq<char>,
    start: usize,
    count: usize,
    bytes_before: usize,
) -> Result<(usize, VulkanDistributedDispatchShardModel), Seq<char>> {
    match fold_from(
        geometry.parameter_slices,
        0,
        Seq::empty(),
        fragment_step(dispatch, start, count),
    ) {
        Err(message) => Err(message),
        Ok(parameters) => match fold_from(
            parameters,
            0,
            bytes_before,
            distributed_bytes_step(dispatch),
        ) {
            Err(message) => Err(message),
            Ok(bytes) => match input_ranges_from(
                dispatch,
                geometry,
                start,
                count,
                0,
                Seq::empty(),
            ) {
                Err(message) => Err(message),
                Ok(input_ranges) => match output_range(
                    dispatch,
                    geometry.output_collection,
                    geometry.output_byte_capacity,
                    geometry.logical_extent,
                    start,
                    count,
                ) {
                    Err(message) => Err(message),
                    Ok(output) => {
                        let workgroups = count as int / geometry.workgroup_elements as int;
                        if geometry.distribution is OutputRows && workgroups > u32::MAX {
                            Err(dispatch.message("shard workgroup count exceeds u32"@))
                        } else if geometry.origin is PushConstantU32 && start > u32::MAX {
                            Err(dispatch.message("partition origin exceeds u32"@))
                        } else {
                            Ok(
                                (
                                    bytes,
                                    VulkanDistributedDispatchShardModel {
                                        device_id,
                                        selected_resource_indices: if geometry.distribution is ExpertRange {
                                            range_ownership(geometry.selector_ids, start, count)
                                        } else {
                                            Map::empty()
                                        },
                                        selected_resource_fragments: Map::empty(),
                                        row_start: start,
                                        row_count: count,
                                        workgroup_count_x: if geometry.distribution is OutputRows {
                                            workgroups as u32
                                        } else {
                                            geometry.artifact_workgroup_count_x
                                        },
                                        base_workgroup_z: if geometry.origin is PushConstantU32 {
                                            start as u32
                                        } else {
                                            0
                                        },
                                        input_range: input_ranges[0],
                                        auxiliary_input_ranges: input_ranges.drop_first(),
                                        output_byte_offset: output.byte_offset,
                                        output_byte_count: output.byte_count,
                                        parameters,
                                    },
                                ),
                            )
                        }
                    },
                },
            },
        },
    }
}

/// The geometry can be cut: extents are positive, and no input or output stays
/// on one device.
pub open spec fn geometry_is_sound(geometry: ShardGeometryModel) -> bool {
    &&& geometry.logical_extent > 0
    &&& geometry.workgroup_elements > 0
    &&& geometry.input_distributions.len() > 0
    &&& geometry.input_distributions.len() == geometry.input_byte_capacities.len()
    &&& forall|i: int|
        0 <= i < geometry.input_distributions.len() ==> !(
        #[trigger] geometry.input_distributions[i] is Local)
    &&& !(geometry.output_collection is Local)
    &&& forall|i: int|
        0 <= i < geometry.parameter_slices.len() ==> (
        #[trigger] geometry.parameter_slices[i]).logical_elements_per_index > 0
}

fn owned_ranges(selector_ids: &Vec<String>, start: usize, count: usize) -> (owned: OrderedMap<
    String,
    Vec<usize>,
>)
    requires
        start + count <= usize::MAX,
    ensures
        owned.deep_view() == range_ownership(selector_ids.deep_view(), start, count),
{
    let ghost ids = selector_ids.deep_view();
    let mut owned: OrderedMap<String, Vec<usize>> = OrderedMap::new();
    for index in 0..selector_ids.len()
        invariant
            start + count <= usize::MAX,
            ids == selector_ids.deep_view(),
            owned.deep_view() == range_ownership(ids.take(index as int), start, count),
    {
        assert(ids.take(index as int + 1).drop_last() =~= ids.take(index as int));
        assert(ids[index as int] == selector_ids@[index as int]@);
        let mut resources: Vec<usize> = Vec::new();
        for offset in 0..count
            invariant
                start + count <= usize::MAX,
                resources.len() == offset,
                forall|i: int| 0 <= i < offset ==> #[trigger] resources@[i] == start + i,
        {
            resources.push(start + offset);
        }
        assert(resources.deep_view() =~= Seq::new(count as nat, |i: int| (start + i) as usize));
        owned.insert(selector_ids[index].clone(), resources);
    }
    assert(ids.take(ids.len() as int) =~= ids);
    owned
}

fn plan_input_ranges(
    dispatch: &VulkanPreparedDispatch,
    geometry: &ShardGeometry,
    logical_start: usize,
    logical_count: usize,
) -> (outcome: Result<Vec<VulkanDistributedActivationRange>, VulkanDistributedPlanError>)
    requires
        geometry_is_sound(geometry.deep_view()),
    ensures
        plan_agrees(
            outcome,
            input_ranges_from(
                dispatch.deep_view(),
                geometry.deep_view(),
                logical_start,
                logical_count,
                0,
                Seq::empty(),
            ),
        ),
        outcome is Ok ==> outcome->Ok_0.len() == geometry.input_distributions.len(),
{
    let ghost model = geometry.deep_view();
    let mut ranges: Vec<VulkanDistributedActivationRange> = Vec::new();
    assert(ranges.deep_view() =~= Seq::empty());
    for index in 0..geometry.input_distributions.len()
        invariant
            model == geometry.deep_view(),
            geometry_is_sound(model),
            ranges.len() == index,
            input_ranges_from(
                dispatch.deep_view(),
                model,
                logical_start,
                logical_count,
                0,
                Seq::empty(),
            ) == input_ranges_from(
                dispatch.deep_view(),
                model,
                logical_start,
                logical_count,
                index as nat,
                ranges.deep_view(),
            ),
    {
        assert(model.input_distributions[index as int]
            == geometry.input_distributions@[index as int]);
        assert(model.input_byte_capacities[index as int]
            == geometry.input_byte_capacities@[index as int]);
        match contract_activation_range(
            dispatch,
            geometry.input_distributions[index],
            geometry.input_byte_capacities[index],
            geometry.logical_extent,
            logical_start,
            logical_count,
        ) {
            Err(error) => {
                return Err(error);
            },
            Ok(range) => {
                append(&mut ranges, range);
            },
        }
    }
    Ok(ranges)
}

fn plan_shard(
    dispatch: &VulkanPreparedDispatch,
    geometry: &ShardGeometry,
    device_id: &String,
    logical_start: usize,
    logical_count: usize,
    bytes_before: usize,
) -> (outcome: Result<(usize, VulkanDistributedDispatchShard), VulkanDistributedPlanError>)
    requires
        geometry_is_sound(geometry.deep_view()),
        logical_start + logical_count <= usize::MAX,
    ensures
        plan_agrees(
            outcome,
            planned_shard(
                dispatch.deep_view(),
                geometry.deep_view(),
                device_id@,
                logical_start,
                logical_count,
                bytes_before,
            ),
        ),
{
    proof {
        assert forall|i: int| 0 <= i < geometry.parameter_slices.len() implies (
        #[trigger] geometry.parameter_slices@[i]).logical_elements_per_index > 0 by {
            assert(geometry.deep_view().parameter_slices[i]
                == geometry.parameter_slices@[i].deep_view());
        }
    }
    let parameters = match shard_parameters(
        dispatch,
        &geometry.parameter_slices,
        logical_start,
        logical_count,
    ) {
        Err(error) => {
            return Err(error);
        },
        Ok(parameters) => parameters,
    };
    let bytes: usize = match distributed_bytes(dispatch, &parameters, bytes_before) {
        Err(error) => {
            return Err(error);
        },
        Ok(bytes) => bytes,
    };
    let ranges = match plan_input_ranges(dispatch, geometry, logical_start, logical_count) {
        Err(error) => {
            return Err(error);
        },
        Ok(ranges) => ranges,
    };
    let output = match contract_output_range(
        dispatch,
        geometry.output_collection,
        geometry.output_byte_capacity,
        geometry.logical_extent,
        logical_start,
        logical_count,
    ) {
        Err(error) => {
            return Err(error);
        },
        Ok(output) => output,
    };
    let workgroup_count_x: u32 = match geometry.distribution {
        VulkanDistributedDispatchDistribution::OutputRows => {
            let workgroups: usize = logical_count / geometry.workgroup_elements;
            if workgroups > u32::MAX as usize {
                return Err(dispatch_error(dispatch, "shard workgroup count exceeds u32"));
            }
            workgroups as u32
        },
        _ => geometry.artifact_workgroup_count_x,
    };
    let base_workgroup_z: u32 = match geometry.origin {
        PartitionOrigin::LocalZero => 0,
        PartitionOrigin::PushConstantU32 => {
            if logical_start > u32::MAX as usize {
                return Err(dispatch_error(dispatch, "partition origin exceeds u32"));
            }
            logical_start as u32
        },
    };
    let selected_resource_indices = match geometry.distribution {
        VulkanDistributedDispatchDistribution::ExpertRange => owned_ranges(
            &geometry.selector_ids,
            logical_start,
            logical_count,
        ),
        _ => OrderedMap::new(),
    };
    let ghost all_ranges = ranges.deep_view();
    assert(all_ranges[0] == ranges@[0]);
    let mut auxiliary_input_ranges: Vec<VulkanDistributedActivationRange> = Vec::new();
    for index in 1..ranges.len()
        invariant
            ranges.len() > 0,
            all_ranges == ranges.deep_view(),
            auxiliary_input_ranges.len() == index - 1,
            forall|i: int|
                0 <= i < index - 1 ==> #[trigger] auxiliary_input_ranges@[i] == ranges@[i + 1],
    {
        auxiliary_input_ranges.push(ranges[index]);
    }
    assert(auxiliary_input_ranges.deep_view() =~= all_ranges.drop_first());
    Ok(
        (
            bytes,
            VulkanDistributedDispatchShard {
                device_id: device_id.clone(),
                selected_resource_indices,
                selected_resource_fragments: OrderedMap::new(),
                row_start: logical_start,
                row_count: logical_count,
                workgroup_count_x,
                base_workgroup_z,
                input_range: ranges[0],
                auxiliary_input_ranges,
                output_byte_offset: output.byte_offset,
                output_byte_count: output.byte_count,
                parameters,
            },
        ),
    )
}

/// The device is another than the owner.
pub open spec fn other_than(owner_device_id: Seq<char>) -> spec_fn(Seq<char>) -> bool {
    |device_id: Seq<char>| device_id != owner_device_id
}

/// The devices of the shards: the owner, then the others of the pool.
pub open spec fn shard_devices(owner_device_id: Seq<char>, device_ids: Seq<Seq<char>>) -> Seq<
    Seq<char>,
> {
    seq![owner_device_id] + kept(device_ids, other_than(owner_device_id))
}

/// The shards from an index on, behind those planned already, with the bytes of
/// all; or the text of the error.
pub open spec fn planned_shards_from(
    dispatch: VulkanPreparedDispatchModel,
    geometry: ShardGeometryModel,
    devices: Seq<Seq<char>>,
    rows: Seq<(usize, usize)>,
    index: nat,
    bytes: usize,
    planned: Seq<VulkanDistributedDispatchShardModel>,
) -> Result<(usize, Seq<VulkanDistributedDispatchShardModel>), Seq<char>>
    decreases rows.len() - index,
{
    if index >= rows.len() || index >= devices.len() {
        Ok((bytes, planned))
    } else {
        match planned_shard(
            dispatch,
            geometry,
            devices[index as int],
            rows[index as int].0,
            rows[index as int].1,
            bytes,
        ) {
            Err(message) => Err(message),
            Ok((next, shard)) => planned_shards_from(
                dispatch,
                geometry,
                devices,
                rows,
                index + 1,
                next,
                planned.push(shard),
            ),
        }
    }
}

fn list_shard_devices(owner_device_id: &String, device_ids: &[String]) -> (devices: Vec<String>)
    ensures
        devices.deep_view() == shard_devices(owner_device_id@, device_ids.deep_view()),
{
    let ghost ids = device_ids.deep_view();
    let ghost condition = other_than(owner_device_id@);
    let mut devices: Vec<String> = Vec::new();
    append(&mut devices, owner_device_id.clone());
    assert(devices.deep_view() =~= seq![owner_device_id@] + kept(ids.take(0), condition));
    for index in 0..device_ids.len()
        invariant
            ids == device_ids.deep_view(),
            condition == other_than(owner_device_id@),
            devices.deep_view() == seq![owner_device_id@] + kept(
                ids.take(index as int),
                condition,
            ),
    {
        proof {
            lemma_kept_step(ids, condition, index as int);
            assert(ids[index as int] == device_ids@[index as int]@);
        }
        if device_ids[index] != *owner_device_id {
            let ghost before = devices.deep_view();
            append(&mut devices, device_ids[index].clone());
            assert(devices.deep_view() =~= seq![owner_device_id@] + kept(
                ids.take(index as int + 1),
                condition,
            ));
        }
    }
    assert(ids.take(ids.len() as int) =~= ids);
    devices
}

fn plan_shards(
    dispatch: &VulkanPreparedDispatch,
    geometry: &ShardGeometry,
    devices: &Vec<String>,
    rows: &Vec<(usize, usize)>,
) -> (outcome: Result<(usize, Vec<VulkanDistributedDispatchShard>), VulkanDistributedPlanError>)
    requires
        geometry_is_sound(geometry.deep_view()),
        forall|i: int| 0 <= i < rows.len() ==> (#[trigger] rows@[i]).0 + rows@[i].1 <= usize::MAX,
    ensures
        plan_agrees(
            outcome,
            planned_shards_from(
                dispatch.deep_view(),
                geometry.deep_view(),
                devices.deep_view(),
                rows@,
                0,
                0,
                Seq::empty(),
            ),
        ),
{
    let ghost model = dispatch.deep_view();
    let ghost geometry_model = geometry.deep_view();
    let ghost all_devices = devices.deep_view();
    let mut bytes: usize = 0;
    let mut shards: Vec<VulkanDistributedDispatchShard> = Vec::new();
    assert(shards.deep_view() =~= Seq::empty());
    let mut index: usize = 0;
    while index < rows.len() && index < devices.len()
        invariant
            model == dispatch.deep_view(),
            geometry_model == geometry.deep_view(),
            all_devices == devices.deep_view(),
            geometry_is_sound(geometry_model),
            index <= rows.len(),
            forall|i: int|
                0 <= i < rows.len() ==> (#[trigger] rows@[i]).0 + rows@[i].1 <= usize::MAX,
            planned_shards_from(model, geometry_model, all_devices, rows@, 0, 0, Seq::empty())
                == planned_shards_from(
                model,
                geometry_model,
                all_devices,
                rows@,
                index as nat,
                bytes,
                shards.deep_view(),
            ),
        decreases rows.len() - index,
    {
        assert(all_devices[index as int] == devices@[index as int]@);
        match plan_shard(
            dispatch,
            geometry,
            &devices[index],
            rows[index].0,
            rows[index].1,
            bytes,
        ) {
            Err(error) => {
                return Err(error);
            },
            Ok((next, shard)) => {
                bytes = next;
                append(&mut shards, shard);
            },
        }
        index += 1;
    }
    Ok((bytes, shards))
}

/// What the rows of the shards stand for.
pub open spec fn form_distribution(form: ExecutionForm) -> VulkanDistributedDispatchDistribution {
    match form {
        ExecutionForm::PartitionedInputPartialOutput =>
            VulkanDistributedDispatchDistribution::InputColumns,
        ExecutionForm::WholeExpertOwnership => VulkanDistributedDispatchDistribution::ExpertRange,
        _ => VulkanDistributedDispatchDistribution::OutputRows,
    }
}

/// The elements of one workgroup and the alignment of the shards that keeps
/// workgroups whole; or the text of the error.
pub open spec fn workgroup_cut(
    dispatch: VulkanPreparedDispatchModel,
    artifact: VulkanPhysicalKernelArtifactModel,
    form: ExecutionForm,
    extent: usize,
    alignment: usize,
) -> Result<(usize, usize), Seq<char>> {
    if !(form_distribution(form) is OutputRows) {
        Ok((1, alignment))
    } else if artifact.workgroup_count_x == 0 || extent as int % artifact.workgroup_count_x as int
        != 0 {
        Err(
            dispatch.message(
                "partition extent "@ + decimal_text(extent as nat) + " is incompatible with "@
                    + decimal_text(artifact.workgroup_count_x as nat) + " artifact workgroups"@,
            ),
        )
    } else {
        let elements = extent as nat / artifact.workgroup_count_x as nat;
        if lcm(alignment as nat, elements) > usize::MAX {
            Err(dispatch.message("logical shard alignment overflowed"@))
        } else {
            Ok((elements as usize, lcm(alignment as nat, elements) as usize))
        }
    }
}

fn cut_workgroups(
    dispatch: &VulkanPreparedDispatch,
    artifact: &VulkanPhysicalKernelArtifact,
    form: ExecutionForm,
    logical_extent: usize,
    logical_alignment: usize,
) -> (outcome: Result<(usize, usize), VulkanDistributedPlanError>)
    requires
        form_distribution(form) is OutputRows ==> logical_extent > 0 || logical_alignment > 0,
    ensures
        plan_agrees(
            outcome,
            workgroup_cut(
                dispatch.deep_view(),
                artifact.deep_view(),
                form,
                logical_extent,
                logical_alignment,
            ),
        ),
{
    match form {
        ExecutionForm::PartitionedInputPartialOutput | ExecutionForm::WholeExpertOwnership => {
            return Ok((1, logical_alignment));
        },
        _ => {},
    }
    let artifact_groups: usize = artifact.workgroup_count_x as usize;
    if artifact_groups == 0 || logical_extent % artifact_groups != 0 {
        return Err(
            dispatch_error(
                dispatch,
                join5(
                    "partition extent ",
                    decimal(logical_extent).as_str(),
                    " is incompatible with ",
                    decimal(artifact_groups).as_str(),
                    " artifact workgroups",
                ).as_str(),
            ),
        );
    }
    let workgroup_elements: usize = logical_extent / artifact_groups;
    assert(logical_extent > 0 ==> workgroup_elements > 0) by (nonlinear_arith)
        requires
            workgroup_elements == logical_extent as int / artifact_groups as int,
            logical_extent as int % artifact_groups as int == 0,
            artifact_groups > 0,
    ;
    match least_common_multiple(logical_alignment, workgroup_elements) {
        None => Err(dispatch_error(dispatch, "logical shard alignment overflowed")),
        Some(alignment) => Ok((workgroup_elements, alignment)),
    }
}

/// The names of the selectors of partitions.
pub open spec fn selector_names(
    partitions: Seq<VulkanDistributedSelectedResourcePartitionPlanModel>,
) -> Seq<Seq<char>> {
    Seq::new(partitions.len(), |i: int| partitions[i].selector_id)
}

/// The distributions of inputs.
pub open spec fn distributions_of(inputs: Seq<ContractInput>) -> Seq<InputDistribution> {
    Seq::new(inputs.len(), |i: int| inputs[i].distribution)
}

/// The signal capacities of activations.
pub open spec fn capacities_of(activations: Seq<VulkanDistributedActivationSlotModel>) -> Seq<
    usize,
> {
    Seq::new(activations.len(), |i: int| activations[i].signal_byte_capacity)
}

/// The width of the input that a plan reports.
pub open spec fn reported_width(
    contract: PhysicalExecutionContractModel,
    input_byte_capacity: usize,
) -> usize {
    let name = "parameter_0_dimension_1"@;
    if contract.dimensions.contains_key(name) && narrowed(contract.dimensions[name]) is Some {
        narrowed(contract.dimensions[name])->0
    } else {
        input_byte_capacity
    }
}

/// What planning found before it cuts the shards.
pub struct PlannedSignalsModel {
    pub inputs: Seq<VulkanDistributedActivationSlotModel>,
    pub output: ContractOutputModel,
    pub output_activation: VulkanDistributedActivationSlotModel,
    pub reduction: Option<VulkanDistributedReductionPlanModel>,
    pub alignment: usize,
}

/// The inputs, the output and the reduction of a dispatch, with the alignment
/// that they ask of the shards; or the text of the error.
pub open spec fn planned_signals(
    dispatch: VulkanPreparedDispatchModel,
    edges: Seq<ComponentEdgePlacementModel>,
    contract: PhysicalExecutionContractModel,
    offset_alignment: usize,
    extent: usize,
    alignment: usize,
) -> Result<PlannedSignalsModel, Seq<char>> {
    match fold_from(
        contract.inputs,
        0,
        (alignment, Seq::empty()),
        input_step(dispatch, extent, offset_alignment, edges),
    ) {
        Err(message) => Err(message),
        Ok((input_alignment, inputs)) => if inputs.len() == 0 {
            Err(dispatch.message("distributed contract has no primary input"@))
        } else if contract.outputs.len() != 1 {
            Err(
                dispatch.message(
                    "distributed execution currently requires one output, contract declares "@
                        + decimal_text(contract.outputs.len()),
                ),
            )
        } else if contract.outputs[0].collection is Local {
            Err(dispatch.message("distributed contract marks its output as local"@))
        } else if narrowed(contract.outputs[0].binding) is None {
            Err(dispatch.message("output binding exceeds usize"@))
        } else {
            let output = contract.outputs[0];
            match resolved_activation(
                dispatch,
                narrowed(output.binding)->0,
                1,
                "contract output"@,
                edges,
                BF16_BYTE_COUNT,
            ) {
                Err(message) => Err(message),
                Ok(output_activation) => match planned_reduction(
                    dispatch,
                    contract,
                    output,
                    inputs,
                    output_activation,
                ) {
                    Err(message) => Err(message),
                    Ok(reduction) => if output.collection is Concatenated {
                        match activation_alignment(
                            dispatch,
                            input_alignment,
                            extent,
                            output_activation.signal_byte_capacity,
                            offset_alignment,
                            "output"@,
                        ) {
                            Err(message) => Err(message),
                            Ok(alignment) => Ok(
                                PlannedSignalsModel {
                                    inputs,
                                    output,
                                    output_activation,
                                    reduction,
                                    alignment,
                                },
                            ),
                        }
                    } else {
                        Ok(
                            PlannedSignalsModel {
                                inputs,
                                output,
                                output_activation,
                                reduction,
                                alignment: input_alignment,
                            },
                        )
                    },
                },
            }
        },
    }
}

/// The geometry from which the shards of a dispatch are cut.
pub open spec fn shard_geometry(
    artifact: VulkanPhysicalKernelArtifactModel,
    contract: PhysicalExecutionContractModel,
    origin: PartitionOrigin,
    signals: PlannedSignalsModel,
    slices: Seq<ContractParameterSliceModel>,
    partitions: Seq<VulkanDistributedSelectedResourcePartitionPlanModel>,
    extent: usize,
    workgroup_elements: usize,
) -> ShardGeometryModel {
    ShardGeometryModel {
        logical_extent: extent,
        workgroup_elements,
        distribution: form_distribution(contract.execution_form),
        origin,
        artifact_workgroup_count_x: artifact.workgroup_count_x,
        input_distributions: distributions_of(contract.inputs),
        input_byte_capacities: capacities_of(signals.inputs),
        output_collection: signals.output.collection,
        output_byte_capacity: match signals.reduction {
            Some(reduction) => reduction.partial_byte_capacity,
            None => signals.output_activation.signal_byte_capacity,
        },
        parameter_slices: slices,
        selector_ids: selector_names(partitions),
    }
}

/// The plan of a dispatch whose signals are resolved, none where the rows make
/// less than two shards, or the text of the error.
pub open spec fn planned_from_signals(
    owner_device_id: Seq<char>,
    dispatch: VulkanPreparedDispatchModel,
    tensors: TensorIndexModel,
    device_ids: Seq<Seq<char>>,
    artifact: VulkanPhysicalKernelArtifactModel,
    contract: PhysicalExecutionContractModel,
    origin: PartitionOrigin,
    partitions: Seq<VulkanDistributedSelectedResourcePartitionPlanModel>,
    extent: usize,
    signals: PlannedSignalsModel,
) -> Result<Option<VulkanDistributedDispatchPlanModel>, Seq<char>> {
    match fold_from(
        contract.parameter_partitions,
        0,
        (signals.alignment, Seq::empty()),
        slice_step(dispatch, tensors, extent),
    ) {
        Err(message) => Err(message),
        Ok((slice_alignment, slices)) => match workgroup_cut(
            dispatch,
            artifact,
            contract.execution_form,
            extent,
            slice_alignment,
        ) {
            Err(message) => Err(message),
            Ok((workgroup_elements, alignment)) => match row_shards(
                extent,
                device_ids.len() as usize,
                workgroup_elements,
                alignment,
            ) {
                Err(message) => Err(dispatch.message(message)),
                Ok(rows) => if rows.len() < 2 {
                    Ok(None)
                } else {
                    match planned_shards_from(
                        dispatch,
                        shard_geometry(
                            artifact,
                            contract,
                            origin,
                            signals,
                            slices,
                            partitions,
                            extent,
                            workgroup_elements,
                        ),
                        shard_devices(owner_device_id, device_ids),
                        rows,
                        0,
                        0,
                        Seq::empty(),
                    ) {
                        Err(message) => Err(message),
                        Ok((bytes, shards)) => match owner_requirements(
                            owner_device_id,
                            dispatch,
                        ) {
                            Err(message) => Err(message),
                            Ok(owner_residency_requirements) => Ok(
                                Some(
                                    assembled_plan(
                                        owner_device_id,
                                        dispatch,
                                        artifact,
                                        contract,
                                        partitions,
                                        owner_residency_requirements,
                                        extent,
                                        alignment,
                                        signals,
                                        bytes,
                                        shards,
                                    ),
                                ),
                            ),
                        },
                    }
                },
            },
        },
    }
}

/// The plan of a dispatch from its parts.
pub open spec fn assembled_plan(
    owner_device_id: Seq<char>,
    dispatch: VulkanPreparedDispatchModel,
    artifact: VulkanPhysicalKernelArtifactModel,
    contract: PhysicalExecutionContractModel,
    partitions: Seq<VulkanDistributedSelectedResourcePartitionPlanModel>,
    owner_residency_requirements: Seq<
        crate::execution_plans::VulkanPhysicalExecutionResidencyRequirementModel,
    >,
    extent: usize,
    alignment: usize,
    signals: PlannedSignalsModel,
    bytes: usize,
    shards: Seq<VulkanDistributedDispatchShardModel>,
) -> VulkanDistributedDispatchPlanModel {
    VulkanDistributedDispatchPlanModel {
        owner_device_id,
        dispatch_index: dispatch.dispatch_index,
        component_id: dispatch.component_id,
        node_id: dispatch.node_id,
        physical_artifact_id: artifact.artifact_id,
        physical_execution_contract_id: contract.contract_id,
        implementation_digest: contract.implementation_digest,
        execution_strategy: contract.strategy,
        equivalence: contract.equivalence,
        contract_member_node_ids: contract.member_node_ids,
        local_intermediates: contract.local_intermediates,
        has_lazy_resource_requirements: contract.resource_kinds.contains(
            ResourceKind::LazyResource,
        ),
        selected_resource_partitions: partitions,
        selected_resource_activations: Seq::empty(),
        owner_residency_requirements,
        input_byte_capacity: signals.inputs[0].signal_byte_capacity,
        output_byte_capacity: signals.output_activation.signal_byte_capacity,
        output_rows: extent,
        input_width: reported_width(contract, signals.inputs[0].signal_byte_capacity),
        row_alignment: alignment,
        input_activation: signals.inputs[0],
        input_distribution: contract.inputs[0].distribution,
        auxiliary_input_activations: signals.inputs.drop_first(),
        auxiliary_input_distributions: distributions_of(contract.inputs).drop_first(),
        output_activation: signals.output_activation,
        output_collection: signals.output.collection,
        reduction: signals.reduction,
        distribution: form_distribution(contract.execution_form),
        distributed_parameter_byte_count: bytes,
        shards,
    }
}

/// The plan by which devices execute a dispatch together, none where the rows
/// make less than two shards, or the text of the error.
pub open spec fn planned_dispatch(
    owner_device_id: Seq<char>,
    dispatch: VulkanPreparedDispatchModel,
    tensors: TensorIndexModel,
    device_ids: Seq<Seq<char>>,
    edges: Seq<ComponentEdgePlacementModel>,
    artifact: VulkanPhysicalKernelArtifactModel,
    contract: PhysicalExecutionContractModel,
    offset_alignment: usize,
    resource_context: Option<(Seq<char>, CompiledResourceResidencyContractModel)>,
) -> Result<Option<VulkanDistributedDispatchPlanModel>, Seq<char>> {
    let groups = "workgroup_count_x"@;
    if contract.partition_extent is None {
        Err(dispatch.message("distributed contract has no partition extent"@))
    } else if contract.partition_launch is None {
        Err(dispatch.message("distributed contract has no partition launch"@))
    } else if coverage_fault(dispatch, contract) is Some {
        Err(coverage_fault(dispatch, contract)->0)
    } else {
        let extent = contract.partition_extent->0;
        let launch = contract.partition_launch->0;
        match resolved_partitions(dispatch, contract, resource_context) {
            Err(message) => Err(message),
            Ok(partitions) => if narrowed(extent.elements) is None {
                Err(dispatch.message("partition extent exceeds usize"@))
            } else if narrowed(extent.alignment_elements) is None {
                Err(dispatch.message("partition alignment exceeds usize"@))
            } else if !contract.dimensions.contains_key(groups) {
                Err(dispatch.message("distributed contract omits workgroup_count_x geometry"@))
            } else if contract.dimensions[groups] != artifact.workgroup_count_x {
                Err(
                    dispatch.message(
                        "contract workgroup count "@ + decimal_text(
                            contract.dimensions[groups] as nat,
                        ) + " disagrees with artifact count "@ + decimal_text(
                            artifact.workgroup_count_x as nat,
                        ),
                    ),
                )
            } else if origin_fault(dispatch, artifact, launch) is Some {
                Err(origin_fault(dispatch, artifact, launch)->0)
            } else {
                match planned_signals(
                    dispatch,
                    edges,
                    contract,
                    offset_alignment,
                    narrowed(extent.elements)->0,
                    narrowed(extent.alignment_elements)->0,
                ) {
                    Err(message) => Err(message),
                    Ok(signals) => planned_from_signals(
                        owner_device_id,
                        dispatch,
                        tensors,
                        device_ids,
                        artifact,
                        contract,
                        launch.origin,
                        partitions,
                        narrowed(extent.elements)->0,
                        signals,
                    ),
                }
            },
        }
    }
}

/// The inputs, the output and the reduction of a dispatch.
struct PlannedSignals {
    inputs: Vec<VulkanDistributedActivationSlot>,
    output_activation: VulkanDistributedActivationSlot,
    reduction: Option<VulkanDistributedReductionPlan>,
    alignment: usize,
}

fn plan_signals(
    dispatch: &VulkanPreparedDispatch,
    edge_placements: &[ComponentEdgePlacement],
    contract: &PhysicalExecutionContract,
    storage_buffer_offset_alignment: usize,
    logical_extent: usize,
    logical_alignment: usize,
) -> (outcome: Result<PlannedSignals, VulkanDistributedPlanError>)
    requires
        storage_buffer_offset_alignment > 0,
    ensures
        ({
            let expected = planned_signals(
                dispatch.deep_view(),
                edge_placements.deep_view(),
                contract.deep_view(),
                storage_buffer_offset_alignment,
                logical_extent,
                logical_alignment,
            );
            match outcome {
                Err(error) => expected == Err::<PlannedSignalsModel, Seq<char>>(error.0@),
                Ok(signals) => {
                    &&& expected is Ok
                    &&& expected->Ok_0.inputs == signals.inputs.deep_view()
                    &&& expected->Ok_0.output == contract.deep_view().outputs[0]
                    &&& expected->Ok_0.output_activation == signals.output_activation.deep_view()
                    &&& expected->Ok_0.reduction == signals.reduction.deep_view()
                    &&& expected->Ok_0.alignment == signals.alignment
                    &&& logical_alignment > 0 ==> signals.alignment > 0
                    &&& signals.inputs.len() == contract.inputs.len()
                    &&& signals.inputs.len() > 0
                    &&& contract.outputs.len() == 1
                    &&& !(contract.outputs@[0].collection is Local)
                    &&& forall|i: int|
                        0 <= i < contract.inputs.len() ==> !((
                        #[trigger] contract.inputs@[i]).distribution is Local)
                },
            }
        }),
{
    let (input_alignment, inputs) = match plan_inputs(
        dispatch,
        contract,
        logical_extent,
        logical_alignment,
        storage_buffer_offset_alignment,
        edge_placements,
    ) {
        Err(error) => {
            return Err(error);
        },
        Ok(planned) => planned,
    };
    if inputs.len() == 0 {
        return Err(dispatch_error(dispatch, "distributed contract has no primary input"));
    }
    if contract.outputs.len() != 1 {
        return Err(
            dispatch_error(
                dispatch,
                join2(
                    "distributed execution currently requires one output, contract declares ",
                    decimal(contract.outputs.len()).as_str(),
                ).as_str(),
            ),
        );
    }
    let output = &contract.outputs[0];
    assert(contract.deep_view().outputs[0] == output.deep_view());
    if output.collection == OutputCollection::Local {
        return Err(dispatch_error(dispatch, "distributed contract marks its output as local"));
    }
    let output_binding: usize = match narrow(output.binding) {
        None => {
            return Err(dispatch_error(dispatch, "output binding exceeds usize"));
        },
        Some(binding) => binding,
    };
    let output_activation = match distributed_activation(
        dispatch,
        output_binding,
        1,
        "contract output",
        edge_placements,
        BF16_BYTE_COUNT,
    ) {
        Err(error) => {
            return Err(error);
        },
        Ok(activation) => activation,
    };
    let reduction = match plan_reduction(dispatch, contract, output, &inputs, &output_activation) {
        Err(error) => {
            return Err(error);
        },
        Ok(reduction) => reduction,
    };
    let alignment: usize = if output.collection == OutputCollection::Concatenated {
        match aligned_activation_partition(
            dispatch,
            input_alignment,
            logical_extent,
            output_activation.signal_byte_capacity,
            storage_buffer_offset_alignment,
            "output",
        ) {
            Err(error) => {
                return Err(error);
            },
            Ok(alignment) => alignment,
        }
    } else {
        input_alignment
    };
    Ok(PlannedSignals { inputs, output_activation, reduction, alignment })
}

fn list_selectors(partitions: &Vec<VulkanDistributedSelectedResourcePartitionPlan>) -> (names: Vec<
    String,
>)
    ensures
        names.deep_view() == selector_names(partitions.deep_view()),
{
    let mut names: Vec<String> = Vec::new();
    for index in 0..partitions.len()
        invariant
            names.len() == index,
            forall|i: int|
                0 <= i < index ==> (#[trigger] names@[i])@ == partitions@[i].selector_id@,
    {
        names.push(partitions[index].selector_id.clone());
    }
    assert(names.deep_view() =~= selector_names(partitions.deep_view()));
    names
}

fn list_distributions(inputs: &Vec<ContractInput>) -> (distributions: Vec<InputDistribution>)
    ensures
        distributions@ == distributions_of(inputs.deep_view()),
        distributions.deep_view() == distributions@,
{
    let mut distributions: Vec<InputDistribution> = Vec::new();
    for index in 0..inputs.len()
        invariant
            distributions.len() == index,
            forall|i: int|
                0 <= i < index ==> #[trigger] distributions@[i] == inputs@[i].distribution,
    {
        distributions.push(inputs[index].distribution);
    }
    assert(distributions@ =~= distributions_of(inputs.deep_view()));
    assert(distributions.deep_view() =~= distributions@);
    distributions
}

fn list_capacities(activations: &Vec<VulkanDistributedActivationSlot>) -> (capacities: Vec<usize>)
    ensures
        capacities.deep_view() == capacities_of(activations.deep_view()),
{
    let mut capacities: Vec<usize> = Vec::new();
    for index in 0..activations.len()
        invariant
            capacities.len() == index,
            forall|i: int|
                0 <= i < index ==> #[trigger] capacities@[i]
                    == activations@[i].signal_byte_capacity,
    {
        capacities.push(activations[index].signal_byte_capacity);
    }
    assert(capacities.deep_view() =~= capacities_of(activations.deep_view()));
    capacities
}

/// The items behind the first one.
fn behind_first<T: PlainValue>(items: &Vec<T>) -> (rest: Vec<T>)
    requires
        items.len() > 0,
    ensures
        rest.deep_view() == items.deep_view().drop_first(),
{
    let mut rest: Vec<T> = Vec::new();
    for index in 1..items.len()
        invariant
            items.len() > 0,
            rest.len() == index - 1,
            forall|i: int|
                0 <= i < index - 1 ==> (#[trigger] rest@[i]).deep_view() == items@[i
                    + 1].deep_view(),
    {
        rest.push(items[index].duplicate());
    }
    assert(rest.deep_view() =~= items.deep_view().drop_first());
    rest
}

fn input_width(contract: &PhysicalExecutionContract, input_byte_capacity: usize) -> (width: usize)
    ensures
        width == reported_width(contract.deep_view(), input_byte_capacity),
{
    match contract.dimensions.get(&"parameter_0_dimension_1".to_owned()) {
        None => input_byte_capacity,
        Some(value) => match narrow(*value) {
            None => input_byte_capacity,
            Some(width) => width,
        },
    }
}

fn has_lazy_resources(kinds: &Vec<ResourceKind>) -> (result: bool)
    ensures
        result == kinds.deep_view().contains(ResourceKind::LazyResource),
{
    crate::sequences::holds(kinds, &ResourceKind::LazyResource)
}

fn plan_from_signals(
    owner_device_id: &String,
    dispatch: &VulkanPreparedDispatch,
    tensor_index: &TensorIndex,
    device_ids: &[String],
    artifact: &VulkanPhysicalKernelArtifact,
    contract: &PhysicalExecutionContract,
    origin: PartitionOrigin,
    partitions: Vec<VulkanDistributedSelectedResourcePartitionPlan>,
    logical_extent: usize,
    signals: PlannedSignals,
    Ghost(model): Ghost<PlannedSignalsModel>,
) -> (outcome: Result<Option<VulkanDistributedDispatchPlan>, VulkanDistributedPlanError>)
    requires
        !(contract.execution_form is Local),
        logical_extent == 0 && contract.execution_form is ReplicatedInputPartitionedOutput
            ==> signals.alignment > 0,
        partitions_are_sound(
            contract.deep_view().parameter_partitions,
            logical_extent as int,
            signals.alignment as int,
        ),
        signals.inputs.len() == contract.inputs.len(),
        signals.inputs.len() > 0,
        contract.outputs.len() == 1,
        !(contract.outputs@[0].collection is Local),
        forall|i: int|
            0 <= i < contract.inputs.len() ==> !((
            #[trigger] contract.inputs@[i]).distribution is Local),
        model.inputs == signals.inputs.deep_view(),
        model.output == contract.deep_view().outputs[0],
        model.output_activation == signals.output_activation.deep_view(),
        model.reduction == signals.reduction.deep_view(),
        model.alignment == signals.alignment,
    ensures
        plan_agrees(
            outcome,
            planned_from_signals(
                owner_device_id@,
                dispatch.deep_view(),
                tensor_index.deep_view(),
                device_ids.deep_view(),
                artifact.deep_view(),
                contract.deep_view(),
                origin,
                partitions.deep_view(),
                logical_extent,
                model,
            ),
        ),
{
    let (slice_alignment, parameter_slices) = match contract_parameter_slices(
        dispatch,
        tensor_index,
        contract,
        logical_extent,
        signals.alignment,
    ) {
        Err(error) => {
            return Err(error);
        },
        Ok(sliced) => sliced,
    };
    let (workgroup_elements, logical_alignment) = match cut_workgroups(
        dispatch,
        artifact,
        contract.execution_form,
        logical_extent,
        slice_alignment,
    ) {
        Err(error) => {
            return Err(error);
        },
        Ok(cut) => cut,
    };
    let rows = match distribute_rows(
        logical_extent,
        device_ids.len(),
        workgroup_elements,
        logical_alignment,
    ) {
        Err(message) => {
            return Err(dispatch_error(dispatch, message.as_str()));
        },
        Ok(rows) => rows,
    };
    if rows.len() < 2 {
        return Ok(None);
    }
    let distribution = match contract.execution_form {
        ExecutionForm::PartitionedInputPartialOutput =>
            VulkanDistributedDispatchDistribution::InputColumns,
        ExecutionForm::WholeExpertOwnership => VulkanDistributedDispatchDistribution::ExpertRange,
        _ => VulkanDistributedDispatchDistribution::OutputRows,
    };
    let output = &contract.outputs[0];
    assert(contract.deep_view().outputs[0] == output.deep_view());
    let geometry = ShardGeometry {
        logical_extent,
        workgroup_elements,
        distribution,
        origin,
        artifact_workgroup_count_x: artifact.workgroup_count_x,
        input_distributions: list_distributions(&contract.inputs),
        input_byte_capacities: list_capacities(&signals.inputs),
        output_collection: output.collection,
        output_byte_capacity: match &signals.reduction {
            Some(reduction) => reduction.partial_byte_capacity,
            None => signals.output_activation.signal_byte_capacity,
        },
        parameter_slices,
        selector_ids: list_selectors(&partitions),
    };
    let ghost geometry_model = shard_geometry(
        artifact.deep_view(),
        contract.deep_view(),
        origin,
        model,
        parameter_slices.deep_view(),
        partitions.deep_view(),
        logical_extent,
        workgroup_elements,
    );
    assert(geometry.deep_view() == geometry_model);
    proof {
        law_row_shards_tile_the_rows(
            logical_extent,
            device_ids.len(),
            workgroup_elements,
            logical_alignment,
        );
        assert forall|i: int| 0 <= i < rows.len() implies (#[trigger] rows@[i]).0 + rows@[i].1
            <= usize::MAX by {
            if i < rows.len() - 1 {
                assert(rows@[i].0 + rows@[i].1 == rows@[i + 1].0);
            }
        }
        assert forall|i: int| 0 <= i < geometry_model.parameter_slices.len() implies (
        #[trigger] geometry_model.parameter_slices[i]).logical_elements_per_index > 0 by {
            assert(geometry_model.parameter_slices[i] == parameter_slices@[i].deep_view());
        }
        assert forall|i: int| 0 <= i < geometry_model.input_distributions.len() implies !(
        #[trigger] geometry_model.input_distributions[i] is Local) by {
            assert(geometry_model.input_distributions[i] == contract.inputs@[i].distribution);
        }
    }
    let devices = list_shard_devices(owner_device_id, device_ids);
    let (bytes, shards) = match plan_shards(dispatch, &geometry, &devices, &rows) {
        Err(error) => {
            return Err(error);
        },
        Ok(planned) => planned,
    };
    let owner_residency_requirements = match resolved_owner_residency_requirements(
        owner_device_id.as_str(),
        dispatch,
    ) {
        Err(error) => {
            return Err(error);
        },
        Ok(requirements) => requirements,
    };
    let input_byte_capacity: usize = signals.inputs[0].signal_byte_capacity;
    assert(model.inputs[0] == signals.inputs@[0].deep_view());
    assert(contract.deep_view().inputs[0] == contract.inputs@[0]);
    let input_distribution = contract.inputs[0].distribution;
    let auxiliary_input_distributions = behind_first(&geometry.input_distributions);
    let plan = VulkanDistributedDispatchPlan {
        owner_device_id: owner_device_id.clone(),
        dispatch_index: dispatch.dispatch_index,
        component_id: dispatch.component_id.clone(),
        node_id: dispatch.node_id.clone(),
        physical_artifact_id: artifact.artifact_id.clone(),
        physical_execution_contract_id: contract.contract_id.clone(),
        implementation_digest: contract.implementation_digest.clone(),
        execution_strategy: contract.strategy,
        equivalence: contract.equivalence,
        contract_member_node_ids: contract.member_node_ids.duplicate(),
        local_intermediates: contract.local_intermediates.duplicate(),
        has_lazy_resource_requirements: has_lazy_resources(&contract.resource_kinds),
        selected_resource_partitions: partitions,
        selected_resource_activations: Vec::new(),
        owner_residency_requirements,
        input_byte_capacity,
        output_byte_capacity: signals.output_activation.signal_byte_capacity,
        output_rows: logical_extent,
        input_width: input_width(contract, input_byte_capacity),
        row_alignment: logical_alignment,
        input_activation: signals.inputs[0].duplicate(),
        input_distribution,
        auxiliary_input_activations: behind_first(&signals.inputs),
        auxiliary_input_distributions,
        output_activation: signals.output_activation,
        output_collection: output.collection,
        reduction: signals.reduction,
        distribution,
        distributed_parameter_byte_count: bytes,
        shards,
    };
    assert(plan.deep_view().selected_resource_activations =~= Seq::empty());
    Ok(Some(plan))
}

/// Plans the shards by which devices execute a dispatch together.
pub fn plan_contract_dispatch(
    owner_device_id: &String,
    dispatch: &VulkanPreparedDispatch,
    tensor_index: &TensorIndex,
    device_ids: &[String],
    edge_placements: &[ComponentEdgePlacement],
    artifact: &VulkanPhysicalKernelArtifact,
    contract: &PhysicalExecutionContract,
    storage_buffer_offset_alignment: usize,
    resource_context: Option<(&String, &CompiledResourceResidencyContract)>,
) -> (outcome: Result<Option<VulkanDistributedDispatchPlan>, VulkanDistributedPlanError>)
    requires
        contract_is_sound(contract.deep_view()),
        storage_buffer_offset_alignment > 0,
    ensures
        plan_agrees(
            outcome,
            planned_dispatch(
                owner_device_id@,
                dispatch.deep_view(),
                tensor_index.deep_view(),
                device_ids.deep_view(),
                edge_placements.deep_view(),
                artifact.deep_view(),
                contract.deep_view(),
                storage_buffer_offset_alignment,
                resource_context.deep_view(),
            ),
        ),
{
    let extent = match &contract.partition_extent {
        None => {
            return Err(dispatch_error(dispatch, "distributed contract has no partition extent"));
        },
        Some(extent) => extent,
    };
    let launch = match &contract.partition_launch {
        None => {
            return Err(dispatch_error(dispatch, "distributed contract has no partition launch"));
        },
        Some(launch) => launch,
    };
    match validate_contract_descriptor_coverage(dispatch, contract) {
        Err(error) => {
            return Err(error);
        },
        Ok(_) => {},
    }
    let partitions = match resolve_selected_resource_partitions(
        dispatch,
        contract,
        resource_context,
    ) {
        Err(error) => {
            return Err(error);
        },
        Ok(partitions) => partitions,
    };
    let logical_extent: usize = match narrow(extent.elements) {
        None => {
            return Err(dispatch_error(dispatch, "partition extent exceeds usize"));
        },
        Some(extent) => extent,
    };
    let logical_alignment: usize = match narrow(extent.alignment_elements) {
        None => {
            return Err(dispatch_error(dispatch, "partition alignment exceeds usize"));
        },
        Some(alignment) => alignment,
    };
    match contract.dimensions.get(&"workgroup_count_x".to_owned()) {
        None => {
            return Err(
                dispatch_error(dispatch, "distributed contract omits workgroup_count_x geometry"),
            );
        },
        Some(count) => {
            if *count != artifact.workgroup_count_x as u64 {
                return Err(
                    dispatch_error(
                        dispatch,
                        join4(
                            "contract workgroup count ",
                            decimal_u64(*count).as_str(),
                            " disagrees with artifact count ",
                            decimal_u64(artifact.workgroup_count_x as u64).as_str(),
                        ).as_str(),
                    ),
                );
            }
        },
    }
    match validate_partition_origin(dispatch, artifact, launch) {
        Err(error) => {
            return Err(error);
        },
        Ok(_) => {},
    }
    let signals = match plan_signals(
        dispatch,
        edge_placements,
        contract,
        storage_buffer_offset_alignment,
        logical_extent,
        logical_alignment,
    ) {
        Err(error) => {
            return Err(error);
        },
        Ok(signals) => signals,
    };
    let ghost model = planned_signals(
        dispatch.deep_view(),
        edge_placements.deep_view(),
        contract.deep_view(),
        storage_buffer_offset_alignment,
        logical_extent,
        logical_alignment,
    )->Ok_0;
    plan_from_signals(
        owner_device_id,
        dispatch,
        tensor_index,
        device_ids,
        artifact,
        contract,
        launch.origin,
        partitions,
        logical_extent,
        signals,
        Ghost(model),
    )
}

} // verus!
