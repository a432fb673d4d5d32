//! The identity of measured executions.
use vstd::prelude::*;

use crate::contracts::ExecutionPhase;
use crate::ordered::OrderedMap;
use crate::values::PlainValue;

verus! {

/// The shape of the activations of a measured component.
#[derive(Clone, Copy, Debug, PartialEq, Eq, Structural)]
pub struct VulkanPlacementShapeClass {
    pub activation_batch_width: usize,
    pub input_byte_capacity: usize,
    pub output_byte_capacity: usize,
}

impl DeepView for VulkanPlacementShapeClass {
    type V = VulkanPlacementShapeClass;

    open spec fn deep_view(&self) -> VulkanPlacementShapeClass {
        *self
    }
}

impl PlainValue for VulkanPlacementShapeClass {
    fn duplicate(&self) -> (copy: Self) {
        *self
    }

    fn same(&self, other: &Self) -> (equal: bool) {
        *self == *other
    }
}

/// What a measured component does.
#[derive(Debug, PartialEq, Eq)]
pub struct VulkanPlacementBehaviorIdentity {
    pub compiled_execution_signature: String,
    pub runtime_implementation_fingerprint: String,
    pub phase: ExecutionPhase,
    pub shape: VulkanPlacementShapeClass,
    pub input_fixture_digest: String,
}

/// The model of [`VulkanPlacementBehaviorIdentity`].
pub struct VulkanPlacementBehaviorIdentityModel {
    pub compiled_execution_signature: Seq<char>,
    pub runtime_implementation_fingerprint: Seq<char>,
    pub phase: ExecutionPhase,
    pub shape: VulkanPlacementShapeClass,
    pub input_fixture_digest: Seq<char>,
}

impl DeepView for VulkanPlacementBehaviorIdentity {
    type V = VulkanPlacementBehaviorIdentityModel;

    open spec fn deep_view(&self) -> VulkanPlacementBehaviorIdentityModel {
        VulkanPlacementBehaviorIdentityModel {
            compiled_execution_signature: self.compiled_execution_signature.deep_view(),
            runtime_implementation_fingerprint: self.runtime_implementation_fingerprint.deep_view(),
            phase: self.phase.deep_view(),
            shape: self.shape.deep_view(),
            input_fixture_digest: self.input_fixture_digest.deep_view(),
        }
    }
}

impl Clone for VulkanPlacementBehaviorIdentity {
    fn clone(&self) -> (copy: Self)
        ensures
            copy.deep_view() == self.deep_view(),
    {
        self.duplicate()
    }
}

impl PlainValue for VulkanPlacementBehaviorIdentity {
    fn duplicate(&self) -> (copy: Self) {
        VulkanPlacementBehaviorIdentity {
            compiled_execution_signature: self.compiled_execution_signature.duplicate(),
            runtime_implementation_fingerprint: self.runtime_implementation_fingerprint.duplicate(),
            phase: self.phase.duplicate(),
            shape: self.shape.duplicate(),
            input_fixture_digest: self.input_fixture_digest.duplicate(),
        }
    }

    fn same(&self, other: &Self) -> (equal: bool) {
        self.compiled_execution_signature.same(&other.compiled_execution_signature)
            && self.runtime_implementation_fingerprint.same(
                &other.runtime_implementation_fingerprint,
            )
            && self.phase.same(&other.phase)
            && self.shape.same(&other.shape)
            && self.input_fixture_digest.same(&other.input_fixture_digest)
    }
}

/// A physical device with its driver.
#[derive(Debug, PartialEq, Eq)]
pub struct VulkanPlacementDeviceExecutionIdentity {
    pub physical_device_id: String,
    pub api_version: u32,
    pub driver_version: u32,
}

/// The model of [`VulkanPlacementDeviceExecutionIdentity`].
pub struct VulkanPlacementDeviceExecutionIdentityModel {
    pub physical_device_id: Seq<char>,
    pub api_version: u32,
    pub driver_version: u32,
}

impl DeepView for VulkanPlacementDeviceExecutionIdentity {
    type V = VulkanPlacementDeviceExecutionIdentityModel;

    open spec fn deep_view(&self) -> VulkanPlacementDeviceExecutionIdentityModel {
        VulkanPlacementDeviceExecutionIdentityModel {
            physical_device_id: self.physical_device_id.deep_view(),
            api_version: self.api_version.deep_view(),
            driver_version: self.driver_version.deep_view(),
        }
    }
}

impl Clone for VulkanPlacementDeviceExecutionIdentity {
    fn clone(&self) -> (copy: Self)
        ensures
            copy.deep_view() == self.deep_view(),
    {
        self.duplicate()
    }
}

impl PlainValue for VulkanPlacementDeviceExecutionIdentity {
    fn duplicate(&self) -> (copy: Self) {
        VulkanPlacementDeviceExecutionIdentity {
            physical_device_id: self.physical_device_id.duplicate(),
            api_version: self.api_version.duplicate(),
            driver_version: self.driver_version.duplicate(),
        }
    }

    fn same(&self, other: &Self) -> (equal: bool) {
        self.physical_device_id.same(&other.physical_device_id)
            && self.api_version.same(&other.api_version)
            && self.driver_version.same(&other.driver_version)
    }
}

/// The size of a measured dispatch.
#[derive(Debug, PartialEq, Eq)]
pub struct VulkanPlacementDispatchGeometry {
    pub contract_id: String,
    pub logical_extent: usize,
    pub sampled_extent: usize,
    pub input_width: usize,
    pub workgroup_count_x: u32,
    pub local_size_x: u32,
}

/// The model of [`VulkanPlacementDispatchGeometry`].
pub struct VulkanPlacementDispatchGeometryModel {
    pub contract_id: Seq<char>,
    pub logical_extent: usize,
    pub sampled_extent: usize,
    pub input_width: usize,
    pub workgroup_count_x: u32,
    pub local_size_x: u32,
}

impl DeepView for VulkanPlacementDispatchGeometry {
    type V = VulkanPlacementDispatchGeometryModel;

    open spec fn deep_view(&self) -> VulkanPlacementDispatchGeometryModel {
        VulkanPlacementDispatchGeometryModel {
            contract_id: self.contract_id.deep_view(),
            logical_extent: self.logical_extent.deep_view(),
            sampled_extent: self.sampled_extent.deep_view(),
            input_width: self.input_width.deep_view(),
            workgroup_count_x: self.workgroup_count_x.deep_view(),
            local_size_x: self.local_size_x.deep_view(),
        }
    }
}

impl Clone for VulkanPlacementDispatchGeometry {
    fn clone(&self) -> (copy: Self)
        ensures
            copy.deep_view() == self.deep_view(),
    {
        self.duplicate()
    }
}

impl PlainValue for VulkanPlacementDispatchGeometry {
    fn duplicate(&self) -> (copy: Self) {
        VulkanPlacementDispatchGeometry {
            contract_id: self.contract_id.duplicate(),
            logical_extent: self.logical_extent.duplicate(),
            sampled_extent: self.sampled_extent.duplicate(),
            input_width: self.input_width.duplicate(),
            workgroup_count_x: self.workgroup_count_x.duplicate(),
            local_size_x: self.local_size_x.duplicate(),
        }
    }

    fn same(&self, other: &Self) -> (equal: bool) {
        self.contract_id.same(&other.contract_id)
            && self.logical_extent.same(&other.logical_extent)
            && self.sampled_extent.same(&other.sampled_extent)
            && self.input_width.same(&other.input_width)
            && self.workgroup_count_x.same(&other.workgroup_count_x)
            && self.local_size_x.same(&other.local_size_x)
    }
}

/// The size of a measured operation, and the label of what it belongs to.
#[derive(Debug, PartialEq, Eq)]
pub enum VulkanPlacementOperationGeometry {
    Dispatch { geometry: VulkanPlacementDispatchGeometry },
    DirectedTransfer { label: String, byte_count: usize },
    Reduction {
        label: String,
        element_count: usize,
        element_byte_count: usize,
        participant_count: usize,
    },
    LazyLoadWave { label: String, resource_count: usize, byte_count: usize },
    SelectedResourceTransaction {
        label: String,
        resource_execution_class_id: String,
        selector_selection_count: usize,
        executed_resource_occurrence_count: usize,
    },
}

/// The model of [`VulkanPlacementOperationGeometry`].
pub enum VulkanPlacementOperationGeometryModel {
    Dispatch { geometry: VulkanPlacementDispatchGeometryModel },
    DirectedTransfer { label: Seq<char>, byte_count: usize },
    Reduction {
        label: Seq<char>,
        element_count: usize,
        element_byte_count: usize,
        participant_count: usize,
    },
    LazyLoadWave { label: Seq<char>, resource_count: usize, byte_count: usize },
    SelectedResourceTransaction {
        label: Seq<char>,
        resource_execution_class_id: Seq<char>,
        selector_selection_count: usize,
        executed_resource_occurrence_count: usize,
    },
}

impl DeepView for VulkanPlacementOperationGeometry {
    type V = VulkanPlacementOperationGeometryModel;

    open spec fn deep_view(&self) -> VulkanPlacementOperationGeometryModel {
        match self {
            VulkanPlacementOperationGeometry::Dispatch { geometry } =>
                VulkanPlacementOperationGeometryModel::Dispatch {
                    geometry: geometry.deep_view(),
                },
            VulkanPlacementOperationGeometry::DirectedTransfer { label, byte_count } =>
                VulkanPlacementOperationGeometryModel::DirectedTransfer {
                    label: label.deep_view(),
                    byte_count: byte_count.deep_view(),
                },
            VulkanPlacementOperationGeometry::Reduction {
                label,
                element_count,
                element_byte_count,
                participant_count,
            } => VulkanPlacementOperationGeometryModel::Reduction {
                label: label.deep_view(),
                element_count: element_count.deep_view(),
                element_byte_count: element_byte_count.deep_view(),
                participant_count: participant_count.deep_view(),
            },
            VulkanPlacementOperationGeometry::LazyLoadWave { label, resource_count, byte_count } =>
                VulkanPlacementOperationGeometryModel::LazyLoadWave {
                    label: label.deep_view(),
                    resource_count: resource_count.deep_view(),
                    byte_count: byte_count.deep_view(),
                },
            VulkanPlacementOperationGeometry::SelectedResourceTransaction {
                label,
                resource_execution_class_id,
                selector_selection_count,
                executed_resource_occurrence_count,
            } => VulkanPlacementOperationGeometryModel::SelectedResourceTransaction {
                label: label.deep_view(),
                resource_execution_class_id: resource_execution_class_id.deep_view(),
                selector_selection_count: selector_selection_count.deep_view(),
                executed_resource_occurrence_count: executed_resource_occurrence_count.deep_view(),
            },
        }
    }
}

impl Clone for VulkanPlacementOperationGeometry {
    fn clone(&self) -> (copy: Self)
        ensures
            copy.deep_view() == self.deep_view(),
    {
        self.duplicate()
    }
}

impl PlainValue for VulkanPlacementOperationGeometry {
    fn duplicate(&self) -> (copy: Self) {
        match self {
            VulkanPlacementOperationGeometry::Dispatch { geometry } =>
                VulkanPlacementOperationGeometry::Dispatch {
                    geometry: geometry.duplicate(),
                },
            VulkanPlacementOperationGeometry::DirectedTransfer { label, byte_count } =>
                VulkanPlacementOperationGeometry::DirectedTransfer {
                    label: label.duplicate(),
                    byte_count: byte_count.duplicate(),
                },
            VulkanPlacementOperationGeometry::Reduction {
                label,
                element_count,
                element_byte_count,
                participant_count,
            } => VulkanPlacementOperationGeometry::Reduction {
                label: label.duplicate(),
                element_count: element_count.duplicate(),
                element_byte_count: element_byte_count.duplicate(),
                participant_count: participant_count.duplicate(),
            },
            VulkanPlacementOperationGeometry::LazyLoadWave { label, resource_count, byte_count } =>
                VulkanPlacementOperationGeometry::LazyLoadWave {
                    label: label.duplicate(),
                    resource_count: resource_count.duplicate(),
                    byte_count: byte_count.duplicate(),
                },
            VulkanPlacementOperationGeometry::SelectedResourceTransaction {
                label,
                resource_execution_class_id,
                selector_selection_count,
                executed_resource_occurrence_count,
            } => VulkanPlacementOperationGeometry::SelectedResourceTransaction {
                label: label.duplicate(),
                resource_execution_class_id: resource_execution_class_id.duplicate(),
                selector_selection_count: selector_selection_count.duplicate(),
                executed_resource_occurrence_count: executed_resource_occurrence_count.duplicate(),
            },
        }
    }

    fn same(&self, other: &Self) -> (equal: bool) {
        match (self, other) {
            (
                VulkanPlacementOperationGeometry::Dispatch { geometry: left_geometry },
                VulkanPlacementOperationGeometry::Dispatch { geometry: right_geometry },
            ) => left_geometry.same(right_geometry),
            (
                VulkanPlacementOperationGeometry::DirectedTransfer {
                    label: left_label,
                    byte_count: left_byte_count,
                },
                VulkanPlacementOperationGeometry::DirectedTransfer {
                    label: right_label,
                    byte_count: right_byte_count,
                },
            ) => left_label.same(right_label) && left_byte_count.same(right_byte_count),
            (
                VulkanPlacementOperationGeometry::Reduction {
                    label: left_label,
                    element_count: left_element_count,
                    element_byte_count: left_element_byte_count,
                    participant_count: left_participant_count,
                },
                VulkanPlacementOperationGeometry::Reduction {
                    label: right_label,
                    element_count: right_element_count,
                    element_byte_count: right_element_byte_count,
                    participant_count: right_participant_count,
                },
            ) =>
                left_label.same(right_label)
                    && left_element_count.same(right_element_count)
                    && left_element_byte_count.same(right_element_byte_count)
                    && left_participant_count.same(right_participant_count),
            (
                VulkanPlacementOperationGeometry::LazyLoadWave {
                    label: left_label,
                    resource_count: left_resource_count,
                    byte_count: left_byte_count,
                },
                VulkanPlacementOperationGeometry::LazyLoadWave {
                    label: right_label,
                    resource_count: right_resource_count,
                    byte_count: right_byte_count,
                },
            ) =>
                left_label.same(right_label)
                    && left_resource_count.same(right_resource_count)
                    && left_byte_count.same(right_byte_count),
            (
                VulkanPlacementOperationGeometry::SelectedResourceTransaction {
                    label: left_label,
                    resource_execution_class_id: left_resource_execution_class_id,
                    selector_selection_count: left_selector_selection_count,
                    executed_resource_occurrence_count: left_executed_resource_occurrence_count,
                },
                VulkanPlacementOperationGeometry::SelectedResourceTransaction {
                    label: right_label,
                    resource_execution_class_id: right_resource_execution_class_id,
                    selector_selection_count: right_selector_selection_count,
                    executed_resource_occurrence_count: right_executed_resource_occurrence_count,
                },
            ) =>
                left_label.same(right_label)
                    && left_resource_execution_class_id.same(right_resource_execution_class_id)
                    && left_selector_selection_count.same(right_selector_selection_count)
                    && left_executed_resource_occurrence_count.same(
                        right_executed_resource_occurrence_count,
                    ),
            _ => false,
        }
    }
}

/// How close two values have to be.
#[derive(Clone, Copy, Debug, PartialEq, Eq, Structural)]
pub enum VulkanPlacementEquivalenceKind {
    BitExact,
    AbsoluteRelativeTolerance,
}

impl DeepView for VulkanPlacementEquivalenceKind {
    type V = VulkanPlacementEquivalenceKind;

    open spec fn deep_view(&self) -> VulkanPlacementEquivalenceKind {
        *self
    }
}

impl PlainValue for VulkanPlacementEquivalenceKind {
    fn duplicate(&self) -> (copy: Self) {
        *self
    }

    fn same(&self, other: &Self) -> (equal: bool) {
        *self == *other
    }
}

/// The format of a scalar.
#[derive(Clone, Copy, Debug, PartialEq, Eq, Structural)]
pub enum VulkanPlacementScalarFormat {
    Bf16,
    F32,
}

impl DeepView for VulkanPlacementScalarFormat {
    type V = VulkanPlacementScalarFormat;

    open spec fn deep_view(&self) -> VulkanPlacementScalarFormat {
        *self
    }
}

impl PlainValue for VulkanPlacementScalarFormat {
    fn duplicate(&self) -> (copy: Self) {
        *self
    }

    fn same(&self, other: &Self) -> (equal: bool) {
        *self == *other
    }
}

/// How close the outputs and states of two executions have to be.
#[derive(Clone, Copy, Debug, PartialEq, Eq, Structural)]
pub struct VulkanPlacementEquivalenceIdentity {
    pub output: VulkanPlacementEquivalenceKind,
    pub state: VulkanPlacementEquivalenceKind,
    pub absolute_tolerance_bits: Option<u64>,
    pub relative_tolerance_bits: Option<u64>,
    pub output_scalar_format: Option<VulkanPlacementScalarFormat>,
}

impl DeepView for VulkanPlacementEquivalenceIdentity {
    type V = VulkanPlacementEquivalenceIdentity;

    open spec fn deep_view(&self) -> VulkanPlacementEquivalenceIdentity {
        *self
    }
}

impl PlainValue for VulkanPlacementEquivalenceIdentity {
    fn duplicate(&self) -> (copy: Self) {
        *self
    }

    fn same(&self, other: &Self) -> (equal: bool) {
        *self == *other
    }
}

/// How a component was executed when it was measured.
#[derive(Clone, Copy, Debug, PartialEq, Eq, Structural)]
pub enum VulkanPlacementExecutionStrategy {
    SingleDevice,
    Serialized,
    TensorParallel,
    WholeExpertParallel,
    IntraExpertTensorParallel,
    Hybrid,
}

impl DeepView for VulkanPlacementExecutionStrategy {
    type V = VulkanPlacementExecutionStrategy;

    open spec fn deep_view(&self) -> VulkanPlacementExecutionStrategy {
        *self
    }
}

impl PlainValue for VulkanPlacementExecutionStrategy {
    fn duplicate(&self) -> (copy: Self) {
        *self
    }

    fn same(&self, other: &Self) -> (equal: bool) {
        *self == *other
    }
}

/// The bytes of a parameter of a selected resource on a device.
#[derive(Debug, PartialEq, Eq)]
pub struct VulkanPlacementSelectedResourceParameterFragmentIdentity {
    pub parameter_slot: usize,
    pub resource_id: String,
    pub resource_byte_count: usize,
    pub byte_offset: usize,
    pub byte_count: usize,
}

/// The model of [`VulkanPlacementSelectedResourceParameterFragmentIdentity`].
pub struct VulkanPlacementSelectedResourceParameterFragmentIdentityModel {
    pub parameter_slot: usize,
    pub resource_id: Seq<char>,
    pub resource_byte_count: usize,
    pub byte_offset: usize,
    pub byte_count: usize,
}

impl DeepView for VulkanPlacementSelectedResourceParameterFragmentIdentity {
    type V = VulkanPlacementSelectedResourceParameterFragmentIdentityModel;

    open spec fn deep_view(&self) -> VulkanPlacementSelectedResourceParameterFragmentIdentityModel {
        VulkanPlacementSelectedResourceParameterFragmentIdentityModel {
            parameter_slot: self.parameter_slot.deep_view(),
            resource_id: self.resource_id.deep_view(),
            resource_byte_count: self.resource_byte_count.deep_view(),
            byte_offset: self.byte_offset.deep_view(),
            byte_count: self.byte_count.deep_view(),
        }
    }
}

impl Clone for VulkanPlacementSelectedResourceParameterFragmentIdentity {
    fn clone(&self) -> (copy: Self)
        ensures
            copy.deep_view() == self.deep_view(),
    {
        self.duplicate()
    }
}

impl PlainValue for VulkanPlacementSelectedResourceParameterFragmentIdentity {
    fn duplicate(&self) -> (copy: Self) {
        VulkanPlacementSelectedResourceParameterFragmentIdentity {
            parameter_slot: self.parameter_slot.duplicate(),
            resource_id: self.resource_id.duplicate(),
            resource_byte_count: self.resource_byte_count.duplicate(),
            byte_offset: self.byte_offset.duplicate(),
            byte_count: self.byte_count.duplicate(),
        }
    }

    fn same(&self, other: &Self) -> (equal: bool) {
        self.parameter_slot.same(&other.parameter_slot)
            && self.resource_id.same(&other.resource_id)
            && self.resource_byte_count.same(&other.resource_byte_count)
            && self.byte_offset.same(&other.byte_offset)
            && self.byte_count.same(&other.byte_count)
    }
}

/// The part of a selected resource on a device.
#[derive(Debug, PartialEq, Eq)]
pub struct VulkanPlacementSelectedResourceFragmentIdentity {
    pub resource_index: usize,
    pub atomic_group_id: String,
    pub logical_start: usize,
    pub logical_count: usize,
    pub parameters: Vec<VulkanPlacementSelectedResourceParameterFragmentIdentity>,
}

/// The model of [`VulkanPlacementSelectedResourceFragmentIdentity`].
pub struct VulkanPlacementSelectedResourceFragmentIdentityModel {
    pub resource_index: usize,
    pub atomic_group_id: Seq<char>,
    pub logical_start: usize,
    pub logical_count: usize,
    pub parameters: Seq<VulkanPlacementSelectedResourceParameterFragmentIdentityModel>,
}

impl DeepView for VulkanPlacementSelectedResourceFragmentIdentity {
    type V = VulkanPlacementSelectedResourceFragmentIdentityModel;

    open spec fn deep_view(&self) -> VulkanPlacementSelectedResourceFragmentIdentityModel {
        VulkanPlacementSelectedResourceFragmentIdentityModel {
            resource_index: self.resource_index.deep_view(),
            atomic_group_id: self.atomic_group_id.deep_view(),
            logical_start: self.logical_start.deep_view(),
            logical_count: self.logical_count.deep_view(),
            parameters: self.parameters.deep_view(),
        }
    }
}

impl Clone for VulkanPlacementSelectedResourceFragmentIdentity {
    fn clone(&self) -> (copy: Self)
        ensures
            copy.deep_view() == self.deep_view(),
    {
        self.duplicate()
    }
}

impl PlainValue for VulkanPlacementSelectedResourceFragmentIdentity {
    fn duplicate(&self) -> (copy: Self) {
        VulkanPlacementSelectedResourceFragmentIdentity {
            resource_index: self.resource_index.duplicate(),
            atomic_group_id: self.atomic_group_id.duplicate(),
            logical_start: self.logical_start.duplicate(),
            logical_count: self.logical_count.duplicate(),
            parameters: self.parameters.duplicate(),
        }
    }

    fn same(&self, other: &Self) -> (equal: bool) {
        self.resource_index.same(&other.resource_index)
            && self.atomic_group_id.same(&other.atomic_group_id)
            && self.logical_start.same(&other.logical_start)
            && self.logical_count.same(&other.logical_count)
            && self.parameters.same(&other.parameters)
    }
}

/// The part of a measured dispatch on a device.
#[derive(Debug, PartialEq, Eq)]
pub struct VulkanPlacementShardIdentity {
    pub dispatch_ordinal: usize,
    pub participant_ordinal: usize,
    pub physical_device_id: String,
    pub distribution: String,
    pub logical_start: usize,
    pub logical_count: usize,
    pub selected_resource_indices_by_partition: OrderedMap<usize, Vec<usize>>,
    pub selected_resource_fragments_by_partition: OrderedMap<usize, Vec<VulkanPlacementSelectedResourceFragmentIdentity>>,
    pub parameter_bytes: usize,
}

/// The model of [`VulkanPlacementShardIdentity`].
pub struct VulkanPlacementShardIdentityModel {
    pub dispatch_ordinal: usize,
    pub participant_ordinal: usize,
    pub physical_device_id: Seq<char>,
    pub distribution: Seq<char>,
    pub logical_start: usize,
    pub logical_count: usize,
    pub selected_resource_indices_by_partition: Map<usize, Seq<usize>>,
    pub selected_resource_fragments_by_partition: Map<usize, Seq<VulkanPlacementSelectedResourceFragmentIdentityModel>>,
    pub parameter_bytes: usize,
}

impl DeepView for VulkanPlacementShardIdentity {
    type V = VulkanPlacementShardIdentityModel;

    open spec fn deep_view(&self) -> VulkanPlacementShardIdentityModel {
        VulkanPlacementShardIdentityModel {
            dispatch_ordinal: self.dispatch_ordinal.deep_view(),
            participant_ordinal: self.participant_ordinal.deep_view(),
            physical_device_id: self.physical_device_id.deep_view(),
            distribution: self.distribution.deep_view(),
            logical_start: self.logical_start.deep_view(),
            logical_count: self.logical_count.deep_view(),
            selected_resource_indices_by_partition: self.selected_resource_indices_by_partition.deep_view(),
            selected_resource_fragments_by_partition: self.selected_resource_fragments_by_partition.deep_view(),
            parameter_bytes: self.parameter_bytes.deep_view(),
        }
    }
}

impl Clone for VulkanPlacementShardIdentity {
    fn clone(&self) -> (copy: Self)
        ensures
            copy.deep_view() == self.deep_view(),
    {
        self.duplicate()
    }
}

impl PlainValue for VulkanPlacementShardIdentity {
    fn duplicate(&self) -> (copy: Self) {
        VulkanPlacementShardIdentity {
            dispatch_ordinal: self.dispatch_ordinal.duplicate(),
            participant_ordinal: self.participant_ordinal.duplicate(),
            physical_device_id: self.physical_device_id.duplicate(),
            distribution: self.distribution.duplicate(),
            logical_start: self.logical_start.duplicate(),
            logical_count: self.logical_count.duplicate(),
            selected_resource_indices_by_partition: self.selected_resource_indices_by_partition.duplicate(),
            selected_resource_fragments_by_partition: self.selected_resource_fragments_by_partition.duplicate(),
            parameter_bytes: self.parameter_bytes.duplicate(),
        }
    }

    fn same(&self, other: &Self) -> (equal: bool) {
        self.dispatch_ordinal.same(&other.dispatch_ordinal)
            && self.participant_ordinal.same(&other.participant_ordinal)
            && self.physical_device_id.same(&other.physical_device_id)
            && self.distribution.same(&other.distribution)
            && self.logical_start.same(&other.logical_start)
            && self.logical_count.same(&other.logical_count)
            && self.selected_resource_indices_by_partition.same(
                &other.selected_resource_indices_by_partition,
            )
            && self.selected_resource_fragments_by_partition.same(
                &other.selected_resource_fragments_by_partition,
            )
            && self.parameter_bytes.same(&other.parameter_bytes)
    }
}

/// Bytes that devices exchanged while a component was measured.
#[derive(Debug, PartialEq, Eq)]
pub struct VulkanPlacementTransportIdentity {
    pub source_physical_device_id: String,
    pub destination_physical_device_id: String,
    pub byte_capacity: usize,
    pub route: String,
}

/// The model of [`VulkanPlacementTransportIdentity`].
pub struct VulkanPlacementTransportIdentityModel {
    pub source_physical_device_id: Seq<char>,
    pub destination_physical_device_id: Seq<char>,
    pub byte_capacity: usize,
    pub route: Seq<char>,
}

impl DeepView for VulkanPlacementTransportIdentity {
    type V = VulkanPlacementTransportIdentityModel;

    open spec fn deep_view(&self) -> VulkanPlacementTransportIdentityModel {
        VulkanPlacementTransportIdentityModel {
            source_physical_device_id: self.source_physical_device_id.deep_view(),
            destination_physical_device_id: self.destination_physical_device_id.deep_view(),
            byte_capacity: self.byte_capacity.deep_view(),
            route: self.route.deep_view(),
        }
    }
}

impl Clone for VulkanPlacementTransportIdentity {
    fn clone(&self) -> (copy: Self)
        ensures
            copy.deep_view() == self.deep_view(),
    {
        self.duplicate()
    }
}

impl PlainValue for VulkanPlacementTransportIdentity {
    fn duplicate(&self) -> (copy: Self) {
        VulkanPlacementTransportIdentity {
            source_physical_device_id: self.source_physical_device_id.duplicate(),
            destination_physical_device_id: self.destination_physical_device_id.duplicate(),
            byte_capacity: self.byte_capacity.duplicate(),
            route: self.route.duplicate(),
        }
    }

    fn same(&self, other: &Self) -> (equal: bool) {
        self.source_physical_device_id.same(&other.source_physical_device_id)
            && self.destination_physical_device_id.same(&other.destination_physical_device_id)
            && self.byte_capacity.same(&other.byte_capacity)
            && self.route.same(&other.route)
    }
}

/// Everything that identifies a measured execution of a component.
#[derive(Debug, PartialEq, Eq)]
pub struct VulkanPlacementExecutionCaseIdentity {
    pub behavior: VulkanPlacementBehaviorIdentity,
    pub contract_ids: Vec<String>,
    pub implementation_digests: Vec<String>,
    pub artifact_digest: String,
    pub execution_graph_digest: String,
    pub operations: Vec<VulkanPlacementOperationGeometry>,
    pub equivalence: VulkanPlacementEquivalenceIdentity,
    pub strategy: VulkanPlacementExecutionStrategy,
    pub devices: Vec<VulkanPlacementDeviceExecutionIdentity>,
    pub shards: Vec<VulkanPlacementShardIdentity>,
    pub input_physical_device_id: String,
    pub output_physical_device_id: String,
    pub owner_physical_device_id: String,
    pub transports: Vec<VulkanPlacementTransportIdentity>,
}

/// The model of [`VulkanPlacementExecutionCaseIdentity`].
pub struct VulkanPlacementExecutionCaseIdentityModel {
    pub behavior: VulkanPlacementBehaviorIdentityModel,
    pub contract_ids: Seq<Seq<char>>,
    pub implementation_digests: Seq<Seq<char>>,
    pub artifact_digest: Seq<char>,
    pub execution_graph_digest: Seq<char>,
    pub operations: Seq<VulkanPlacementOperationGeometryModel>,
    pub equivalence: VulkanPlacementEquivalenceIdentity,
    pub strategy: VulkanPlacementExecutionStrategy,
    pub devices: Seq<VulkanPlacementDeviceExecutionIdentityModel>,
    pub shards: Seq<VulkanPlacementShardIdentityModel>,
    pub input_physical_device_id: Seq<char>,
    pub output_physical_device_id: Seq<char>,
    pub owner_physical_device_id: Seq<char>,
    pub transports: Seq<VulkanPlacementTransportIdentityModel>,
}

impl DeepView for VulkanPlacementExecutionCaseIdentity {
    type V = VulkanPlacementExecutionCaseIdentityModel;

    open spec fn deep_view(&self) -> VulkanPlacementExecutionCaseIdentityModel {
        VulkanPlacementExecutionCaseIdentityModel {
            behavior: self.behavior.deep_view(),
            contract_ids: self.contract_ids.deep_view(),
            implementation_digests: self.implementation_digests.deep_view(),
            artifact_digest: self.artifact_digest.deep_view(),
            execution_graph_digest: self.execution_graph_digest.deep_view(),
            operations: self.operations.deep_view(),
            equivalence: self.equivalence.deep_view(),
            strategy: self.strategy.deep_view(),
            devices: self.devices.deep_view(),
            shards: self.shards.deep_view(),
            input_physical_device_id: self.input_physical_device_id.deep_view(),
            output_physical_device_id: self.output_physical_device_id.deep_view(),
            owner_physical_device_id: self.owner_physical_device_id.deep_view(),
            transports: self.transports.deep_view(),
        }
    }
}

impl Clone for VulkanPlacementExecutionCaseIdentity {
    fn clone(&self) -> (copy: Self)
        ensures
            copy.deep_view() == self.deep_view(),
    {
        self.duplicate()
    }
}

impl PlainValue for VulkanPlacementExecutionCaseIdentity {
    fn duplicate(&self) -> (copy: Self) {
        VulkanPlacementExecutionCaseIdentity {
            behavior: self.behavior.duplicate(),
            contract_ids: self.contract_ids.duplicate(),
            implementation_digests: self.implementation_digests.duplicate(),
            artifact_digest: self.artifact_digest.duplicate(),
            execution_graph_digest: self.execution_graph_digest.duplicate(),
            operations: self.operations.duplicate(),
            equivalence: self.equivalence.duplicate(),
            strategy: self.strategy.duplicate(),
            devices: self.devices.duplicate(),
            shards: self.shards.duplicate(),
            input_physical_device_id: self.input_physical_device_id.duplicate(),
            output_physical_device_id: self.output_physical_device_id.duplicate(),
            owner_physical_device_id: self.owner_physical_device_id.duplicate(),
            transports: self.transports.duplicate(),
        }
    }

    fn same(&self, other: &Self) -> (equal: bool) {
        self.behavior.same(&other.behavior)
            && self.contract_ids.same(&other.contract_ids)
            && self.implementation_digests.same(&other.implementation_digests)
            && self.artifact_digest.same(&other.artifact_digest)
            && self.execution_graph_digest.same(&other.execution_graph_digest)
            && self.operations.same(&other.operations)
            && self.equivalence.same(&other.equivalence)
            && self.strategy.same(&other.strategy)
            && self.devices.same(&other.devices)
            && self.shards.same(&other.shards)
            && self.input_physical_device_id.same(&other.input_physical_device_id)
            && self.output_physical_device_id.same(&other.output_physical_device_id)
            && self.owner_physical_device_id.same(&other.owner_physical_device_id)
            && self.transports.same(&other.transports)
    }
}

impl VulkanPlacementEquivalenceIdentity {
    /// Outputs and states have to be the same bits.
    pub fn bit_exact() -> (identity: Self)
        ensures
            identity == (VulkanPlacementEquivalenceIdentity {
                output: VulkanPlacementEquivalenceKind::BitExact,
                state: VulkanPlacementEquivalenceKind::BitExact,
                absolute_tolerance_bits: None,
                relative_tolerance_bits: None,
                output_scalar_format: None,
            }),
    {
        VulkanPlacementEquivalenceIdentity {
            output: VulkanPlacementEquivalenceKind::BitExact,
            state: VulkanPlacementEquivalenceKind::BitExact,
            absolute_tolerance_bits: None,
            relative_tolerance_bits: None,
            output_scalar_format: None,
        }
    }
}

} // verus!
