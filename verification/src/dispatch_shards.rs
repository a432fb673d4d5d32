//! The parts of a dispatch that single devices execute.
use vstd::prelude::*;

use crate::ordered::OrderedMap;
use crate::values::PlainValue;

verus! {

/// A byte range of an activation.
#[derive(Clone, Copy, Debug, PartialEq, Eq, Structural)]
pub struct VulkanDistributedActivationRange {
    pub byte_offset: usize,
    pub byte_count: usize,
}

impl DeepView for VulkanDistributedActivationRange {
    type V = VulkanDistributedActivationRange;

    open spec fn deep_view(&self) -> VulkanDistributedActivationRange {
        *self
    }
}

impl PlainValue for VulkanDistributedActivationRange {
    fn duplicate(&self) -> (copy: Self) {
        *self
    }

    fn same(&self, other: &Self) -> (equal: bool) {
        *self == *other
    }
}

/// The bytes of a parameter tensor that a shard reads.
#[derive(Debug, PartialEq, Eq)]
pub struct VulkanDistributedParameterFragment {
    pub binding: usize,
    pub tensor: String,
    pub byte_offset: usize,
    pub byte_count: usize,
}

/// The model of [`VulkanDistributedParameterFragment`].
pub struct VulkanDistributedParameterFragmentModel {
    pub binding: usize,
    pub tensor: Seq<char>,
    pub byte_offset: usize,
    pub byte_count: usize,
}

impl DeepView for VulkanDistributedParameterFragment {
    type V = VulkanDistributedParameterFragmentModel;

    open spec fn deep_view(&self) -> VulkanDistributedParameterFragmentModel {
        VulkanDistributedParameterFragmentModel {
            binding: self.binding.deep_view(),
            tensor: self.tensor.deep_view(),
            byte_offset: self.byte_offset.deep_view(),
            byte_count: self.byte_count.deep_view(),
        }
    }
}

impl Clone for VulkanDistributedParameterFragment {
    fn clone(&self) -> (copy: Self)
        ensures
            copy.deep_view() == self.deep_view(),
    {
        self.duplicate()
    }
}

impl PlainValue for VulkanDistributedParameterFragment {
    fn duplicate(&self) -> (copy: Self) {
        VulkanDistributedParameterFragment {
            binding: self.binding.duplicate(),
            tensor: self.tensor.duplicate(),
            byte_offset: self.byte_offset.duplicate(),
            byte_count: self.byte_count.duplicate(),
        }
    }

    fn same(&self, other: &Self) -> (equal: bool) {
        self.binding.same(&other.binding)
            && self.tensor.same(&other.tensor)
            && self.byte_offset.same(&other.byte_offset)
            && self.byte_count.same(&other.byte_count)
    }
}

/// The bytes of a selected resource that a shard reads.
#[derive(Debug, PartialEq, Eq)]
pub struct VulkanDistributedSelectedResourceParameterFragmentPlan {
    pub parameter_slot: usize,
    pub resource_id: String,
    pub resource_byte_count: usize,
    pub byte_offset: usize,
    pub byte_count: usize,
}

/// The model of [`VulkanDistributedSelectedResourceParameterFragmentPlan`].
pub struct VulkanDistributedSelectedResourceParameterFragmentPlanModel {
    pub parameter_slot: usize,
    pub resource_id: Seq<char>,
    pub resource_byte_count: usize,
    pub byte_offset: usize,
    pub byte_count: usize,
}

impl DeepView for VulkanDistributedSelectedResourceParameterFragmentPlan {
    type V = VulkanDistributedSelectedResourceParameterFragmentPlanModel;

    open spec fn deep_view(&self) -> VulkanDistributedSelectedResourceParameterFragmentPlanModel {
        VulkanDistributedSelectedResourceParameterFragmentPlanModel {
            parameter_slot: self.parameter_slot.deep_view(),
            resource_id: self.resource_id.deep_view(),
            resource_byte_count: self.resource_byte_count.deep_view(),
            byte_offset: self.byte_offset.deep_view(),
            byte_count: self.byte_count.deep_view(),
        }
    }
}

impl Clone for VulkanDistributedSelectedResourceParameterFragmentPlan {
    fn clone(&self) -> (copy: Self)
        ensures
            copy.deep_view() == self.deep_view(),
    {
        self.duplicate()
    }
}

impl PlainValue for VulkanDistributedSelectedResourceParameterFragmentPlan {
    fn duplicate(&self) -> (copy: Self) {
        VulkanDistributedSelectedResourceParameterFragmentPlan {
            parameter_slot: self.parameter_slot.duplicate(),
            resource_id: self.resource_id.duplicate(),
            resource_byte_count: self.resource_byte_count.duplicate(),
            byte_offset: self.byte_offset.duplicate(),
            byte_count: self.byte_count.duplicate(),
        }
    }

    fn same(&self, other: &Self) -> (equal: bool) {
        self.parameter_slot.same(&other.parameter_slot)
            && self.resource_id.same(&other.resource_id)
            && self.resource_byte_count.same(&other.resource_byte_count)
            && self.byte_offset.same(&other.byte_offset)
            && self.byte_count.same(&other.byte_count)
    }
}

/// The part of a selected resource that a shard owns.
#[derive(Debug, PartialEq, Eq)]
pub struct VulkanDistributedSelectedResourceFragmentPlan {
    pub resource_index: usize,
    pub atomic_group_id: String,
    pub logical_start: usize,
    pub logical_count: usize,
    pub parameters: Vec<VulkanDistributedSelectedResourceParameterFragmentPlan>,
}

/// The model of [`VulkanDistributedSelectedResourceFragmentPlan`].
pub struct VulkanDistributedSelectedResourceFragmentPlanModel {
    pub resource_index: usize,
    pub atomic_group_id: Seq<char>,
    pub logical_start: usize,
    pub logical_count: usize,
    pub parameters: Seq<VulkanDistributedSelectedResourceParameterFragmentPlanModel>,
}

impl DeepView for VulkanDistributedSelectedResourceFragmentPlan {
    type V = VulkanDistributedSelectedResourceFragmentPlanModel;

    open spec fn deep_view(&self) -> VulkanDistributedSelectedResourceFragmentPlanModel {
        VulkanDistributedSelectedResourceFragmentPlanModel {
            resource_index: self.resource_index.deep_view(),
            atomic_group_id: self.atomic_group_id.deep_view(),
            logical_start: self.logical_start.deep_view(),
            logical_count: self.logical_count.deep_view(),
            parameters: self.parameters.deep_view(),
        }
    }
}

impl Clone for VulkanDistributedSelectedResourceFragmentPlan {
    fn clone(&self) -> (copy: Self)
        ensures
            copy.deep_view() == self.deep_view(),
    {
        self.duplicate()
    }
}

impl PlainValue for VulkanDistributedSelectedResourceFragmentPlan {
    fn duplicate(&self) -> (copy: Self) {
        VulkanDistributedSelectedResourceFragmentPlan {
            resource_index: self.resource_index.duplicate(),
            atomic_group_id: self.atomic_group_id.duplicate(),
            logical_start: self.logical_start.duplicate(),
            logical_count: self.logical_count.duplicate(),
            parameters: self.parameters.duplicate(),
        }
    }

    fn same(&self, other: &Self) -> (equal: bool) {
        self.resource_index.same(&other.resource_index)
            && self.atomic_group_id.same(&other.atomic_group_id)
            && self.logical_start.same(&other.logical_start)
            && self.logical_count.same(&other.logical_count)
            && self.parameters.same(&other.parameters)
    }
}

/// The part of a dispatch that one device executes.
#[derive(Debug, PartialEq, Eq)]
pub struct VulkanDistributedDispatchShard {
    pub device_id: String,
    /// Exact selector-local resources owned by this shard. An empty map means
    /// the dispatch uses ordinary contiguous tensor partitioning.
    pub selected_resource_indices: OrderedMap<String, Vec<usize>>,
    /// Logical fragments of selector-local resources owned by this shard.
    /// These are distinct from whole-resource ownership above: every selected
    /// resource may contribute one non-overlapping fragment to every shard.
    pub selected_resource_fragments: OrderedMap<String, Vec<VulkanDistributedSelectedResourceFragmentPlan>>,
    pub row_start: usize,
    pub row_count: usize,
    pub workgroup_count_x: u32,
    pub base_workgroup_z: u32,
    pub input_range: VulkanDistributedActivationRange,
    pub auxiliary_input_ranges: Vec<VulkanDistributedActivationRange>,
    pub output_byte_offset: usize,
    pub output_byte_count: usize,
    pub parameters: Vec<VulkanDistributedParameterFragment>,
}

/// The model of [`VulkanDistributedDispatchShard`].
pub struct VulkanDistributedDispatchShardModel {
    pub device_id: Seq<char>,
    pub selected_resource_indices: Map<Seq<char>, Seq<usize>>,
    pub selected_resource_fragments: Map<Seq<char>, Seq<VulkanDistributedSelectedResourceFragmentPlanModel>>,
    pub row_start: usize,
    pub row_count: usize,
    pub workgroup_count_x: u32,
    pub base_workgroup_z: u32,
    pub input_range: VulkanDistributedActivationRange,
    pub auxiliary_input_ranges: Seq<VulkanDistributedActivationRange>,
    pub output_byte_offset: usize,
    pub output_byte_count: usize,
    pub parameters: Seq<VulkanDistributedParameterFragmentModel>,
}

impl DeepView for VulkanDistributedDispatchShard {
    type V = VulkanDistributedDispatchShardModel;

    open spec fn deep_view(&self) -> VulkanDistributedDispatchShardModel {
        VulkanDistributedDispatchShardModel {
            device_id: self.device_id.deep_view(),
            selected_resource_indices: self.selected_resource_indices.deep_view(),
            selected_resource_fragments: self.selected_resource_fragments.deep_view(),
            row_start: self.row_start.deep_view(),
            row_count: self.row_count.deep_view(),
            workgroup_count_x: self.workgroup_count_x.deep_view(),
            base_workgroup_z: self.base_workgroup_z.deep_view(),
            input_range: self.input_range.deep_view(),
            auxiliary_input_ranges: self.auxiliary_input_ranges.deep_view(),
            output_byte_offset: self.output_byte_offset.deep_view(),
            output_byte_count: self.output_byte_count.deep_view(),
            parameters: self.parameters.deep_view(),
        }
    }
}

impl Clone for VulkanDistributedDispatchShard {
    fn clone(&self) -> (copy: Self)
        ensures
            copy.deep_view() == self.deep_view(),
    {
        self.duplicate()
    }
}

impl PlainValue for VulkanDistributedDispatchShard {
    fn duplicate(&self) -> (copy: Self) {
        VulkanDistributedDispatchShard {
            device_id: self.device_id.duplicate(),
            selected_resource_indices: self.selected_resource_indices.duplicate(),
            selected_resource_fragments: self.selected_resource_fragments.duplicate(),
            row_start: self.row_start.duplicate(),
            row_count: self.row_count.duplicate(),
            workgroup_count_x: self.workgroup_count_x.duplicate(),
            base_workgroup_z: self.base_workgroup_z.duplicate(),
            input_range: self.input_range.duplicate(),
            auxiliary_input_ranges: self.auxiliary_input_ranges.duplicate(),
            output_byte_offset: self.output_byte_offset.duplicate(),
            output_byte_count: self.output_byte_count.duplicate(),
            parameters: self.parameters.duplicate(),
        }
    }

    fn same(&self, other: &Self) -> (equal: bool) {
        self.device_id.same(&other.device_id)
            && self.selected_resource_indices.same(&other.selected_resource_indices)
            && self.selected_resource_fragments.same(&other.selected_resource_fragments)
            && self.row_start.same(&other.row_start)
            && self.row_count.same(&other.row_count)
            && self.workgroup_count_x.same(&other.workgroup_count_x)
            && self.base_workgroup_z.same(&other.base_workgroup_z)
            && self.input_range.same(&other.input_range)
            && self.auxiliary_input_ranges.same(&other.auxiliary_input_ranges)
            && self.output_byte_offset.same(&other.output_byte_offset)
            && self.output_byte_count.same(&other.output_byte_count)
            && self.parameters.same(&other.parameters)
    }
}

} // verus!
