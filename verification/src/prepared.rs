//! Prepared dispatches and the package data that planning reads.
use vstd::prelude::*;

use crate::contracts::{PhysicalExecutionContract, PhysicalExecutionContractModel};
use crate::ordered::OrderedMap;
use crate::values::PlainValue;

verus! {

/// What a kernel uses a descriptor for.
#[derive(Clone, Copy, Debug, PartialEq, Eq, Structural)]
pub enum VulkanKernelDescriptorUsage {
    InputSignal,
    OutputSignal,
    Parameter,
    State,
    Control,
}

impl DeepView for VulkanKernelDescriptorUsage {
    type V = VulkanKernelDescriptorUsage;

    open spec fn deep_view(&self) -> VulkanKernelDescriptorUsage {
        *self
    }
}

impl PlainValue for VulkanKernelDescriptorUsage {
    fn duplicate(&self) -> (copy: Self) {
        *self
    }

    fn same(&self, other: &Self) -> (equal: bool) {
        *self == *other
    }
}

/// The resource that a descriptor addresses.
#[derive(Debug, PartialEq, Eq)]
pub enum VulkanDescriptorResourceAddress {
    ActivationSlot {
        component_id: String,
        signal_id: String,
        slot: usize,
        byte_capacity: usize,
        signal_byte_capacity: usize,
    },
    BoundaryInput { signal_id: String },
    BoundaryOutput { signal_id: String },
    PermanentParameter { tensor: String },
    DynamicResourceAddressTable { component_id: String, node_id: String, selection_signal: String },
    DynamicResourceParameterSlots {
        component_id: String,
        node_id: String,
        selection_signal: String,
        parameter_ids: Vec<String>,
    },
    RuntimeControl { runtime_source: String, byte_capacity: usize },
    StateBuffer { component_id: String, state_id: String, byte_capacity: usize },
    StateView { component_id: String, state_id: String, byte_capacity: usize },
    SelectionTelemetry {
        component_id: String,
        node_id: String,
        domain_id: String,
        byte_capacity: usize,
    },
}

/// The model of [`VulkanDescriptorResourceAddress`].
pub enum VulkanDescriptorResourceAddressModel {
    ActivationSlot {
        component_id: Seq<char>,
        signal_id: Seq<char>,
        slot: usize,
        byte_capacity: usize,
        signal_byte_capacity: usize,
    },
    BoundaryInput { signal_id: Seq<char> },
    BoundaryOutput { signal_id: Seq<char> },
    PermanentParameter { tensor: Seq<char> },
    DynamicResourceAddressTable {
        component_id: Seq<char>,
        node_id: Seq<char>,
        selection_signal: Seq<char>,
    },
    DynamicResourceParameterSlots {
        component_id: Seq<char>,
        node_id: Seq<char>,
        selection_signal: Seq<char>,
        parameter_ids: Seq<Seq<char>>,
    },
    RuntimeControl { runtime_source: Seq<char>, byte_capacity: usize },
    StateBuffer { component_id: Seq<char>, state_id: Seq<char>, byte_capacity: usize },
    StateView { component_id: Seq<char>, state_id: Seq<char>, byte_capacity: usize },
    SelectionTelemetry {
        component_id: Seq<char>,
        node_id: Seq<char>,
        domain_id: Seq<char>,
        byte_capacity: usize,
    },
}

impl DeepView for VulkanDescriptorResourceAddress {
    type V = VulkanDescriptorResourceAddressModel;

    open spec fn deep_view(&self) -> VulkanDescriptorResourceAddressModel {
        match self {
            VulkanDescriptorResourceAddress::ActivationSlot {
                component_id,
                signal_id,
                slot,
                byte_capacity,
                signal_byte_capacity,
            } => VulkanDescriptorResourceAddressModel::ActivationSlot {
                component_id: component_id.deep_view(),
                signal_id: signal_id.deep_view(),
                slot: slot.deep_view(),
                byte_capacity: byte_capacity.deep_view(),
                signal_byte_capacity: signal_byte_capacity.deep_view(),
            },
            VulkanDescriptorResourceAddress::BoundaryInput { signal_id } =>
                VulkanDescriptorResourceAddressModel::BoundaryInput {
                    signal_id: signal_id.deep_view(),
                },
            VulkanDescriptorResourceAddress::BoundaryOutput { signal_id } =>
                VulkanDescriptorResourceAddressModel::BoundaryOutput {
                    signal_id: signal_id.deep_view(),
                },
            VulkanDescriptorResourceAddress::PermanentParameter { tensor } =>
                VulkanDescriptorResourceAddressModel::PermanentParameter {
                    tensor: tensor.deep_view(),
                },
            VulkanDescriptorResourceAddress::DynamicResourceAddressTable {
                component_id,
                node_id,
                selection_signal,
            } => VulkanDescriptorResourceAddressModel::DynamicResourceAddressTable {
                component_id: component_id.deep_view(),
                node_id: node_id.deep_view(),
                selection_signal: selection_signal.deep_view(),
            },
            VulkanDescriptorResourceAddress::DynamicResourceParameterSlots {
                component_id,
                node_id,
                selection_signal,
                parameter_ids,
            } => VulkanDescriptorResourceAddressModel::DynamicResourceParameterSlots {
                component_id: component_id.deep_view(),
                node_id: node_id.deep_view(),
                selection_signal: selection_signal.deep_view(),
                parameter_ids: parameter_ids.deep_view(),
            },
            VulkanDescriptorResourceAddress::RuntimeControl { runtime_source, byte_capacity } =>
                VulkanDescriptorResourceAddressModel::RuntimeControl {
                    runtime_source: runtime_source.deep_view(),
                    byte_capacity: byte_capacity.deep_view(),
                },
            VulkanDescriptorResourceAddress::StateBuffer {
                component_id,
                state_id,
                byte_capacity,
            } => VulkanDescriptorResourceAddressModel::StateBuffer {
                component_id: component_id.deep_view(),
                state_id: state_id.deep_view(),
                byte_capacity: byte_capacity.deep_view(),
            },
            VulkanDescriptorResourceAddress::StateView { component_id, state_id, byte_capacity } =>
                VulkanDescriptorResourceAddressModel::StateView {
                    component_id: component_id.deep_view(),
                    state_id: state_id.deep_view(),
                    byte_capacity: byte_capacity.deep_view(),
                },
            VulkanDescriptorResourceAddress::SelectionTelemetry {
                component_id,
                node_id,
                domain_id,
                byte_capacity,
            } => VulkanDescriptorResourceAddressModel::SelectionTelemetry {
                component_id: component_id.deep_view(),
                node_id: node_id.deep_view(),
                domain_id: domain_id.deep_view(),
                byte_capacity: byte_capacity.deep_view(),
            },
        }
    }
}

impl Clone for VulkanDescriptorResourceAddress {
    fn clone(&self) -> (copy: Self)
        ensures
            copy.deep_view() == self.deep_view(),
    {
        self.duplicate()
    }
}

impl PlainValue for VulkanDescriptorResourceAddress {
    fn duplicate(&self) -> (copy: Self) {
        match self {
            VulkanDescriptorResourceAddress::ActivationSlot {
                component_id,
                signal_id,
                slot,
                byte_capacity,
                signal_byte_capacity,
            } => VulkanDescriptorResourceAddress::ActivationSlot {
                component_id: component_id.duplicate(),
                signal_id: signal_id.duplicate(),
                slot: slot.duplicate(),
                byte_capacity: byte_capacity.duplicate(),
                signal_byte_capacity: signal_byte_capacity.duplicate(),
            },
            VulkanDescriptorResourceAddress::BoundaryInput { signal_id } =>
                VulkanDescriptorResourceAddress::BoundaryInput {
                    signal_id: signal_id.duplicate(),
                },
            VulkanDescriptorResourceAddress::BoundaryOutput { signal_id } =>
                VulkanDescriptorResourceAddress::BoundaryOutput {
                    signal_id: signal_id.duplicate(),
                },
            VulkanDescriptorResourceAddress::PermanentParameter { tensor } =>
                VulkanDescriptorResourceAddress::PermanentParameter {
                    tensor: tensor.duplicate(),
                },
            VulkanDescriptorResourceAddress::DynamicResourceAddressTable {
                component_id,
                node_id,
                selection_signal,
            } => VulkanDescriptorResourceAddress::DynamicResourceAddressTable {
                component_id: component_id.duplicate(),
                node_id: node_id.duplicate(),
                selection_signal: selection_signal.duplicate(),
            },
            VulkanDescriptorResourceAddress::DynamicResourceParameterSlots {
                component_id,
                node_id,
                selection_signal,
                parameter_ids,
            } => VulkanDescriptorResourceAddress::DynamicResourceParameterSlots {
                component_id: component_id.duplicate(),
                node_id: node_id.duplicate(),
                selection_signal: selection_signal.duplicate(),
                parameter_ids: parameter_ids.duplicate(),
            },
            VulkanDescriptorResourceAddress::RuntimeControl { runtime_source, byte_capacity } =>
                VulkanDescriptorResourceAddress::RuntimeControl {
                    runtime_source: runtime_source.duplicate(),
                    byte_capacity: byte_capacity.duplicate(),
                },
            VulkanDescriptorResourceAddress::StateBuffer {
                component_id,
                state_id,
                byte_capacity,
            } => VulkanDescriptorResourceAddress::StateBuffer {
                component_id: component_id.duplicate(),
                state_id: state_id.duplicate(),
                byte_capacity: byte_capacity.duplicate(),
            },
            VulkanDescriptorResourceAddress::StateView { component_id, state_id, byte_capacity } =>
                VulkanDescriptorResourceAddress::StateView {
                    component_id: component_id.duplicate(),
                    state_id: state_id.duplicate(),
                    byte_capacity: byte_capacity.duplicate(),
                },
            VulkanDescriptorResourceAddress::SelectionTelemetry {
                component_id,
                node_id,
                domain_id,
                byte_capacity,
            } => VulkanDescriptorResourceAddress::SelectionTelemetry {
                component_id: component_id.duplicate(),
                node_id: node_id.duplicate(),
                domain_id: domain_id.duplicate(),
                byte_capacity: byte_capacity.duplicate(),
            },
        }
    }

    fn same(&self, other: &Self) -> (equal: bool) {
        match (self, other) {
            (
                VulkanDescriptorResourceAddress::ActivationSlot {
                    component_id: left_component_id,
                    signal_id: left_signal_id,
                    slot: left_slot,
                    byte_capacity: left_byte_capacity,
                    signal_byte_capacity: left_signal_byte_capacity,
                },
                VulkanDescriptorResourceAddress::ActivationSlot {
                    component_id: right_component_id,
                    signal_id: right_signal_id,
                    slot: right_slot,
                    byte_capacity: right_byte_capacity,
                    signal_byte_capacity: right_signal_byte_capacity,
                },
            ) =>
                left_component_id.same(right_component_id)
                    && left_signal_id.same(right_signal_id)
                    && left_slot.same(right_slot)
                    && left_byte_capacity.same(right_byte_capacity)
                    && left_signal_byte_capacity.same(right_signal_byte_capacity),
            (
                VulkanDescriptorResourceAddress::BoundaryInput { signal_id: left_signal_id },
                VulkanDescriptorResourceAddress::BoundaryInput { signal_id: right_signal_id },
            ) => left_signal_id.same(right_signal_id),
            (
                VulkanDescriptorResourceAddress::BoundaryOutput { signal_id: left_signal_id },
                VulkanDescriptorResourceAddress::BoundaryOutput { signal_id: right_signal_id },
            ) => left_signal_id.same(right_signal_id),
            (
                VulkanDescriptorResourceAddress::PermanentParameter { tensor: left_tensor },
                VulkanDescriptorResourceAddress::PermanentParameter { tensor: right_tensor },
            ) => left_tensor.same(right_tensor),
            (
                VulkanDescriptorResourceAddress::DynamicResourceAddressTable {
                    component_id: left_component_id,
                    node_id: left_node_id,
                    selection_signal: left_selection_signal,
                },
                VulkanDescriptorResourceAddress::DynamicResourceAddressTable {
                    component_id: right_component_id,
                    node_id: right_node_id,
                    selection_signal: right_selection_signal,
                },
            ) =>
                left_component_id.same(right_component_id)
                    && left_node_id.same(right_node_id)
                    && left_selection_signal.same(right_selection_signal),
            (
                VulkanDescriptorResourceAddress::DynamicResourceParameterSlots {
                    component_id: left_component_id,
                    node_id: left_node_id,
                    selection_signal: left_selection_signal,
                    parameter_ids: left_parameter_ids,
                },
                VulkanDescriptorResourceAddress::DynamicResourceParameterSlots {
                    component_id: right_component_id,
                    node_id: right_node_id,
                    selection_signal: right_selection_signal,
                    parameter_ids: right_parameter_ids,
                },
            ) =>
                left_component_id.same(right_component_id)
                    && left_node_id.same(right_node_id)
                    && left_selection_signal.same(right_selection_signal)
                    && left_parameter_ids.same(right_parameter_ids),
            (
                VulkanDescriptorResourceAddress::RuntimeControl {
                    runtime_source: left_runtime_source,
                    byte_capacity: left_byte_capacity,
                },
                VulkanDescriptorResourceAddress::RuntimeControl {
                    runtime_source: right_runtime_source,
                    byte_capacity: right_byte_capacity,
                },
            ) =>
                left_runtime_source.same(right_runtime_source)
                    && left_byte_capacity.same(right_byte_capacity),
            (
                VulkanDescriptorResourceAddress::StateBuffer {
                    component_id: left_component_id,
                    state_id: left_state_id,
                    byte_capacity: left_byte_capacity,
                },
                VulkanDescriptorResourceAddress::StateBuffer {
                    component_id: right_component_id,
                    state_id: right_state_id,
                    byte_capacity: right_byte_capacity,
                },
            ) =>
                left_component_id.same(right_component_id)
                    && left_state_id.same(right_state_id)
                    && left_byte_capacity.same(right_byte_capacity),
            (
                VulkanDescriptorResourceAddress::StateView {
                    component_id: left_component_id,
                    state_id: left_state_id,
                    byte_capacity: left_byte_capacity,
                },
                VulkanDescriptorResourceAddress::StateView {
                    component_id: right_component_id,
                    state_id: right_state_id,
                    byte_capacity: right_byte_capacity,
                },
            ) =>
                left_component_id.same(right_component_id)
                    && left_state_id.same(right_state_id)
                    && left_byte_capacity.same(right_byte_capacity),
            (
                VulkanDescriptorResourceAddress::SelectionTelemetry {
                    component_id: left_component_id,
                    node_id: left_node_id,
                    domain_id: left_domain_id,
                    byte_capacity: left_byte_capacity,
                },
                VulkanDescriptorResourceAddress::SelectionTelemetry {
                    component_id: right_component_id,
                    node_id: right_node_id,
                    domain_id: right_domain_id,
                    byte_capacity: right_byte_capacity,
                },
            ) =>
                left_component_id.same(right_component_id)
                    && left_node_id.same(right_node_id)
                    && left_domain_id.same(right_domain_id)
                    && left_byte_capacity.same(right_byte_capacity),
            _ => false,
        }
    }
}

/// A descriptor of a prepared dispatch.
#[derive(Debug, PartialEq, Eq)]
pub struct VulkanPreparedDescriptor {
    pub binding: usize,
    pub usage: VulkanKernelDescriptorUsage,
    pub resource: VulkanDescriptorResourceAddress,
}

/// The model of [`VulkanPreparedDescriptor`].
pub struct VulkanPreparedDescriptorModel {
    pub binding: usize,
    pub usage: VulkanKernelDescriptorUsage,
    pub resource: VulkanDescriptorResourceAddressModel,
}

impl DeepView for VulkanPreparedDescriptor {
    type V = VulkanPreparedDescriptorModel;

    open spec fn deep_view(&self) -> VulkanPreparedDescriptorModel {
        VulkanPreparedDescriptorModel {
            binding: self.binding.deep_view(),
            usage: self.usage.deep_view(),
            resource: self.resource.deep_view(),
        }
    }
}

impl Clone for VulkanPreparedDescriptor {
    fn clone(&self) -> (copy: Self)
        ensures
            copy.deep_view() == self.deep_view(),
    {
        self.duplicate()
    }
}

impl PlainValue for VulkanPreparedDescriptor {
    fn duplicate(&self) -> (copy: Self) {
        VulkanPreparedDescriptor {
            binding: self.binding.duplicate(),
            usage: self.usage.duplicate(),
            resource: self.resource.duplicate(),
        }
    }

    fn same(&self, other: &Self) -> (equal: bool) {
        self.binding.same(&other.binding)
            && self.usage.same(&other.usage)
            && self.resource.same(&other.resource)
    }
}

/// A dispatch that is ready to execute on its owner device.
#[derive(Debug, PartialEq, Eq)]
pub struct VulkanPreparedDispatch {
    pub dispatch_index: usize,
    pub component_id: String,
    pub node_id: String,
    pub op: String,
    pub reusable_family_id: String,
    pub descriptors: Vec<VulkanPreparedDescriptor>,
    pub physical_execution_contracts: Vec<PhysicalExecutionContract>,
}

/// The model of [`VulkanPreparedDispatch`].
pub struct VulkanPreparedDispatchModel {
    pub dispatch_index: usize,
    pub component_id: Seq<char>,
    pub node_id: Seq<char>,
    pub op: Seq<char>,
    pub reusable_family_id: Seq<char>,
    pub descriptors: Seq<VulkanPreparedDescriptorModel>,
    pub physical_execution_contracts: Seq<PhysicalExecutionContractModel>,
}

impl DeepView for VulkanPreparedDispatch {
    type V = VulkanPreparedDispatchModel;

    open spec fn deep_view(&self) -> VulkanPreparedDispatchModel {
        VulkanPreparedDispatchModel {
            dispatch_index: self.dispatch_index.deep_view(),
            component_id: self.component_id.deep_view(),
            node_id: self.node_id.deep_view(),
            op: self.op.deep_view(),
            reusable_family_id: self.reusable_family_id.deep_view(),
            descriptors: self.descriptors.deep_view(),
            physical_execution_contracts: self.physical_execution_contracts.deep_view(),
        }
    }
}

impl Clone for VulkanPreparedDispatch {
    fn clone(&self) -> (copy: Self)
        ensures
            copy.deep_view() == self.deep_view(),
    {
        self.duplicate()
    }
}

impl PlainValue for VulkanPreparedDispatch {
    fn duplicate(&self) -> (copy: Self) {
        VulkanPreparedDispatch {
            dispatch_index: self.dispatch_index.duplicate(),
            component_id: self.component_id.duplicate(),
            node_id: self.node_id.duplicate(),
            op: self.op.duplicate(),
            reusable_family_id: self.reusable_family_id.duplicate(),
            descriptors: self.descriptors.duplicate(),
            physical_execution_contracts: self.physical_execution_contracts.duplicate(),
        }
    }

    fn same(&self, other: &Self) -> (equal: bool) {
        self.dispatch_index.same(&other.dispatch_index)
            && self.component_id.same(&other.component_id)
            && self.node_id.same(&other.node_id)
            && self.op.same(&other.op)
            && self.reusable_family_id.same(&other.reusable_family_id)
            && self.descriptors.same(&other.descriptors)
            && self.physical_execution_contracts.same(&other.physical_execution_contracts)
    }
}

/// The dispatches of one owner device in execution order.
#[derive(Debug, PartialEq, Eq)]
pub struct VulkanPreparedDispatchPlan {
    pub dispatches: Vec<VulkanPreparedDispatch>,
}

/// The model of [`VulkanPreparedDispatchPlan`].
pub struct VulkanPreparedDispatchPlanModel {
    pub dispatches: Seq<VulkanPreparedDispatchModel>,
}

impl DeepView for VulkanPreparedDispatchPlan {
    type V = VulkanPreparedDispatchPlanModel;

    open spec fn deep_view(&self) -> VulkanPreparedDispatchPlanModel {
        VulkanPreparedDispatchPlanModel {
            dispatches: self.dispatches.deep_view(),
        }
    }
}

impl Clone for VulkanPreparedDispatchPlan {
    fn clone(&self) -> (copy: Self)
        ensures
            copy.deep_view() == self.deep_view(),
    {
        self.duplicate()
    }
}

impl PlainValue for VulkanPreparedDispatchPlan {
    fn duplicate(&self) -> (copy: Self) {
        VulkanPreparedDispatchPlan {
            dispatches: self.dispatches.duplicate(),
        }
    }

    fn same(&self, other: &Self) -> (equal: bool) {
        self.dispatches.same(&other.dispatches)
    }
}

/// An edge between two placed components.
#[derive(Debug, PartialEq, Eq)]
pub struct ComponentEdgePlacement {
    pub edge_index: usize,
    pub source_component_id: String,
    pub source_port_id: String,
    pub source_component_port: Option<String>,
    pub source_device_id: String,
    pub destination_component_id: String,
    pub destination_port_id: String,
    pub destination_component_port: Option<String>,
    pub shape: Vec<usize>,
}

/// The model of [`ComponentEdgePlacement`].
pub struct ComponentEdgePlacementModel {
    pub edge_index: usize,
    pub source_component_id: Seq<char>,
    pub source_port_id: Seq<char>,
    pub source_component_port: Option<Seq<char>>,
    pub source_device_id: Seq<char>,
    pub destination_component_id: Seq<char>,
    pub destination_port_id: Seq<char>,
    pub destination_component_port: Option<Seq<char>>,
    pub shape: Seq<usize>,
}

impl DeepView for ComponentEdgePlacement {
    type V = ComponentEdgePlacementModel;

    open spec fn deep_view(&self) -> ComponentEdgePlacementModel {
        ComponentEdgePlacementModel {
            edge_index: self.edge_index.deep_view(),
            source_component_id: self.source_component_id.deep_view(),
            source_port_id: self.source_port_id.deep_view(),
            source_component_port: self.source_component_port.deep_view(),
            source_device_id: self.source_device_id.deep_view(),
            destination_component_id: self.destination_component_id.deep_view(),
            destination_port_id: self.destination_port_id.deep_view(),
            destination_component_port: self.destination_component_port.deep_view(),
            shape: self.shape.deep_view(),
        }
    }
}

impl Clone for ComponentEdgePlacement {
    fn clone(&self) -> (copy: Self)
        ensures
            copy.deep_view() == self.deep_view(),
    {
        self.duplicate()
    }
}

impl PlainValue for ComponentEdgePlacement {
    fn duplicate(&self) -> (copy: Self) {
        ComponentEdgePlacement {
            edge_index: self.edge_index.duplicate(),
            source_component_id: self.source_component_id.duplicate(),
            source_port_id: self.source_port_id.duplicate(),
            source_component_port: self.source_component_port.duplicate(),
            source_device_id: self.source_device_id.duplicate(),
            destination_component_id: self.destination_component_id.duplicate(),
            destination_port_id: self.destination_port_id.duplicate(),
            destination_component_port: self.destination_component_port.duplicate(),
            shape: self.shape.duplicate(),
        }
    }

    fn same(&self, other: &Self) -> (equal: bool) {
        self.edge_index.same(&other.edge_index)
            && self.source_component_id.same(&other.source_component_id)
            && self.source_port_id.same(&other.source_port_id)
            && self.source_component_port.same(&other.source_component_port)
            && self.source_device_id.same(&other.source_device_id)
            && self.destination_component_id.same(&other.destination_component_id)
            && self.destination_port_id.same(&other.destination_port_id)
            && self.destination_component_port.same(&other.destination_component_port)
            && self.shape.same(&other.shape)
    }
}

/// The identity of the bytes of a tensor.
#[derive(Debug, PartialEq, Eq)]
pub enum TensorContentIdentity {
    Known { identity: String },
    Unavailable { reason: String },
}

/// The model of [`TensorContentIdentity`].
pub enum TensorContentIdentityModel {
    Known { identity: Seq<char> },
    Unavailable { reason: Seq<char> },
}

impl DeepView for TensorContentIdentity {
    type V = TensorContentIdentityModel;

    open spec fn deep_view(&self) -> TensorContentIdentityModel {
        match self {
            TensorContentIdentity::Known { identity } => TensorContentIdentityModel::Known {
                identity: identity.deep_view(),
            },
            TensorContentIdentity::Unavailable { reason } =>
                TensorContentIdentityModel::Unavailable {
                    reason: reason.deep_view(),
                },
        }
    }
}

impl Clone for TensorContentIdentity {
    fn clone(&self) -> (copy: Self)
        ensures
            copy.deep_view() == self.deep_view(),
    {
        self.duplicate()
    }
}

impl PlainValue for TensorContentIdentity {
    fn duplicate(&self) -> (copy: Self) {
        match self {
            TensorContentIdentity::Known { identity } => TensorContentIdentity::Known {
                identity: identity.duplicate(),
            },
            TensorContentIdentity::Unavailable { reason } => TensorContentIdentity::Unavailable {
                reason: reason.duplicate(),
            },
        }
    }

    fn same(&self, other: &Self) -> (equal: bool) {
        match (self, other) {
            (
                TensorContentIdentity::Known { identity: left_identity },
                TensorContentIdentity::Known { identity: right_identity },
            ) => left_identity.same(right_identity),
            (
                TensorContentIdentity::Unavailable { reason: left_reason },
                TensorContentIdentity::Unavailable { reason: right_reason },
            ) => left_reason.same(right_reason),
            _ => false,
        }
    }
}

/// What is known of a stored tensor.
#[derive(Debug, PartialEq, Eq)]
pub struct TensorMetadata {
    pub layout: Option<String>,
    pub shape: Vec<usize>,
    pub byte_count: Option<usize>,
    pub content_identity: TensorContentIdentity,
}

/// The model of [`TensorMetadata`].
pub struct TensorMetadataModel {
    pub layout: Option<Seq<char>>,
    pub shape: Seq<usize>,
    pub byte_count: Option<usize>,
    pub content_identity: TensorContentIdentityModel,
}

impl DeepView for TensorMetadata {
    type V = TensorMetadataModel;

    open spec fn deep_view(&self) -> TensorMetadataModel {
        TensorMetadataModel {
            layout: self.layout.deep_view(),
            shape: self.shape.deep_view(),
            byte_count: self.byte_count.deep_view(),
            content_identity: self.content_identity.deep_view(),
        }
    }
}

impl Clone for TensorMetadata {
    fn clone(&self) -> (copy: Self)
        ensures
            copy.deep_view() == self.deep_view(),
    {
        self.duplicate()
    }
}

impl PlainValue for TensorMetadata {
    fn duplicate(&self) -> (copy: Self) {
        TensorMetadata {
            layout: self.layout.duplicate(),
            shape: self.shape.duplicate(),
            byte_count: self.byte_count.duplicate(),
            content_identity: self.content_identity.duplicate(),
        }
    }

    fn same(&self, other: &Self) -> (equal: bool) {
        self.layout.same(&other.layout)
            && self.shape.same(&other.shape)
            && self.byte_count.same(&other.byte_count)
            && self.content_identity.same(&other.content_identity)
    }
}

/// The stored tensors by name.
#[derive(Debug, PartialEq, Eq)]
pub struct TensorIndex {
    pub tensors: OrderedMap<String, TensorMetadata>,
}

/// The model of [`TensorIndex`].
pub struct TensorIndexModel {
    pub tensors: Map<Seq<char>, TensorMetadataModel>,
}

impl DeepView for TensorIndex {
    type V = TensorIndexModel;

    open spec fn deep_view(&self) -> TensorIndexModel {
        TensorIndexModel {
            tensors: self.tensors.deep_view(),
        }
    }
}

impl Clone for TensorIndex {
    fn clone(&self) -> (copy: Self)
        ensures
            copy.deep_view() == self.deep_view(),
    {
        self.duplicate()
    }
}

impl PlainValue for TensorIndex {
    fn duplicate(&self) -> (copy: Self) {
        TensorIndex {
            tensors: self.tensors.duplicate(),
        }
    }

    fn same(&self, other: &Self) -> (equal: bool) {
        self.tensors.same(&other.tensors)
    }
}

/// Where a kernel reads a scalar from.
#[derive(Clone, Copy, Debug, PartialEq, Eq, Structural)]
pub enum VulkanKernelScalarSource {
    PushConstant,
    StreamControl,
}

impl DeepView for VulkanKernelScalarSource {
    type V = VulkanKernelScalarSource;

    open spec fn deep_view(&self) -> VulkanKernelScalarSource {
        *self
    }
}

impl PlainValue for VulkanKernelScalarSource {
    fn duplicate(&self) -> (copy: Self) {
        *self
    }

    fn same(&self, other: &Self) -> (equal: bool) {
        *self == *other
    }
}

/// A scalar that a kernel reads.
#[derive(Debug, PartialEq, Eq)]
pub struct VulkanKernelScalarBinding {
    pub name: String,
    pub scalar_type: String,
    pub source: VulkanKernelScalarSource,
}

/// The model of [`VulkanKernelScalarBinding`].
pub struct VulkanKernelScalarBindingModel {
    pub name: Seq<char>,
    pub scalar_type: Seq<char>,
    pub source: VulkanKernelScalarSource,
}

impl DeepView for VulkanKernelScalarBinding {
    type V = VulkanKernelScalarBindingModel;

    open spec fn deep_view(&self) -> VulkanKernelScalarBindingModel {
        VulkanKernelScalarBindingModel {
            name: self.name.deep_view(),
            scalar_type: self.scalar_type.deep_view(),
            source: self.source.deep_view(),
        }
    }
}

impl Clone for VulkanKernelScalarBinding {
    fn clone(&self) -> (copy: Self)
        ensures
            copy.deep_view() == self.deep_view(),
    {
        self.duplicate()
    }
}

impl PlainValue for VulkanKernelScalarBinding {
    fn duplicate(&self) -> (copy: Self) {
        VulkanKernelScalarBinding {
            name: self.name.duplicate(),
            scalar_type: self.scalar_type.duplicate(),
            source: self.source.duplicate(),
        }
    }

    fn same(&self, other: &Self) -> (equal: bool) {
        self.name.same(&other.name)
            && self.scalar_type.same(&other.scalar_type)
            && self.source.same(&other.source)
    }
}

/// A compiled kernel.
#[derive(Debug, PartialEq, Eq)]
pub struct VulkanPhysicalKernelArtifact {
    pub artifact_id: String,
    pub op: String,
    pub path: String,
    pub entry_point: String,
    pub local_size_x: u32,
    pub workgroup_count_x: u32,
    pub push_constants: Vec<VulkanKernelScalarBinding>,
}

/// The model of [`VulkanPhysicalKernelArtifact`].
pub struct VulkanPhysicalKernelArtifactModel {
    pub artifact_id: Seq<char>,
    pub op: Seq<char>,
    pub path: Seq<char>,
    pub entry_point: Seq<char>,
    pub local_size_x: u32,
    pub workgroup_count_x: u32,
    pub push_constants: Seq<VulkanKernelScalarBindingModel>,
}

impl DeepView for VulkanPhysicalKernelArtifact {
    type V = VulkanPhysicalKernelArtifactModel;

    open spec fn deep_view(&self) -> VulkanPhysicalKernelArtifactModel {
        VulkanPhysicalKernelArtifactModel {
            artifact_id: self.artifact_id.deep_view(),
            op: self.op.deep_view(),
            path: self.path.deep_view(),
            entry_point: self.entry_point.deep_view(),
            local_size_x: self.local_size_x.deep_view(),
            workgroup_count_x: self.workgroup_count_x.deep_view(),
            push_constants: self.push_constants.deep_view(),
        }
    }
}

impl Clone for VulkanPhysicalKernelArtifact {
    fn clone(&self) -> (copy: Self)
        ensures
            copy.deep_view() == self.deep_view(),
    {
        self.duplicate()
    }
}

impl PlainValue for VulkanPhysicalKernelArtifact {
    fn duplicate(&self) -> (copy: Self) {
        VulkanPhysicalKernelArtifact {
            artifact_id: self.artifact_id.duplicate(),
            op: self.op.duplicate(),
            path: self.path.duplicate(),
            entry_point: self.entry_point.duplicate(),
            local_size_x: self.local_size_x.duplicate(),
            workgroup_count_x: self.workgroup_count_x.duplicate(),
            push_constants: self.push_constants.duplicate(),
        }
    }

    fn same(&self, other: &Self) -> (equal: bool) {
        self.artifact_id.same(&other.artifact_id)
            && self.op.same(&other.op)
            && self.path.same(&other.path)
            && self.entry_point.same(&other.entry_point)
            && self.local_size_x.same(&other.local_size_x)
            && self.workgroup_count_x.same(&other.workgroup_count_x)
            && self.push_constants.same(&other.push_constants)
    }
}

/// The compiled kernels of a package.
#[derive(Debug, PartialEq, Eq)]
pub struct VulkanPhysicalKernelArtifactManifest {
    pub artifacts: Vec<VulkanPhysicalKernelArtifact>,
}

/// The model of [`VulkanPhysicalKernelArtifactManifest`].
pub struct VulkanPhysicalKernelArtifactManifestModel {
    pub artifacts: Seq<VulkanPhysicalKernelArtifactModel>,
}

impl DeepView for VulkanPhysicalKernelArtifactManifest {
    type V = VulkanPhysicalKernelArtifactManifestModel;

    open spec fn deep_view(&self) -> VulkanPhysicalKernelArtifactManifestModel {
        VulkanPhysicalKernelArtifactManifestModel {
            artifacts: self.artifacts.deep_view(),
        }
    }
}

impl Clone for VulkanPhysicalKernelArtifactManifest {
    fn clone(&self) -> (copy: Self)
        ensures
            copy.deep_view() == self.deep_view(),
    {
        self.duplicate()
    }
}

impl PlainValue for VulkanPhysicalKernelArtifactManifest {
    fn duplicate(&self) -> (copy: Self) {
        VulkanPhysicalKernelArtifactManifest {
            artifacts: self.artifacts.duplicate(),
        }
    }

    fn same(&self, other: &Self) -> (equal: bool) {
        self.artifacts.same(&other.artifacts)
    }
}

/// How long a resource stays resident.
#[derive(Clone, Copy, Debug, PartialEq, Eq, Structural)]
pub enum CompiledResourceLifetime {
    Permanent,
    Dynamic,
}

impl DeepView for CompiledResourceLifetime {
    type V = CompiledResourceLifetime;

    open spec fn deep_view(&self) -> CompiledResourceLifetime {
        *self
    }
}

impl PlainValue for CompiledResourceLifetime {
    fn duplicate(&self) -> (copy: Self) {
        *self
    }

    fn same(&self, other: &Self) -> (equal: bool) {
        *self == *other
    }
}

/// Resources that become resident together.
#[derive(Debug, PartialEq, Eq)]
pub struct CompiledAtomicGroup {
    pub id: String,
    pub lifetime: CompiledResourceLifetime,
    pub resource_ids: Vec<String>,
}

/// The model of [`CompiledAtomicGroup`].
pub struct CompiledAtomicGroupModel {
    pub id: Seq<char>,
    pub lifetime: CompiledResourceLifetime,
    pub resource_ids: Seq<Seq<char>>,
}

impl DeepView for CompiledAtomicGroup {
    type V = CompiledAtomicGroupModel;

    open spec fn deep_view(&self) -> CompiledAtomicGroupModel {
        CompiledAtomicGroupModel {
            id: self.id.deep_view(),
            lifetime: self.lifetime.deep_view(),
            resource_ids: self.resource_ids.deep_view(),
        }
    }
}

impl Clone for CompiledAtomicGroup {
    fn clone(&self) -> (copy: Self)
        ensures
            copy.deep_view() == self.deep_view(),
    {
        self.duplicate()
    }
}

impl PlainValue for CompiledAtomicGroup {
    fn duplicate(&self) -> (copy: Self) {
        CompiledAtomicGroup {
            id: self.id.duplicate(),
            lifetime: self.lifetime.duplicate(),
            resource_ids: self.resource_ids.duplicate(),
        }
    }

    fn same(&self, other: &Self) -> (equal: bool) {
        self.id.same(&other.id)
            && self.lifetime.same(&other.lifetime)
            && self.resource_ids.same(&other.resource_ids)
    }
}

/// How many bytes a resource has in its source.
#[derive(Debug, PartialEq, Eq)]
pub enum CompiledSourceByteCount {
    Known { byte_count: usize },
    Unavailable { reason: String },
}

/// The model of [`CompiledSourceByteCount`].
pub enum CompiledSourceByteCountModel {
    Known { byte_count: usize },
    Unavailable { reason: Seq<char> },
}

impl DeepView for CompiledSourceByteCount {
    type V = CompiledSourceByteCountModel;

    open spec fn deep_view(&self) -> CompiledSourceByteCountModel {
        match self {
            CompiledSourceByteCount::Known { byte_count } => CompiledSourceByteCountModel::Known {
                byte_count: byte_count.deep_view(),
            },
            CompiledSourceByteCount::Unavailable { reason } =>
                CompiledSourceByteCountModel::Unavailable {
                    reason: reason.deep_view(),
                },
        }
    }
}

impl Clone for CompiledSourceByteCount {
    fn clone(&self) -> (copy: Self)
        ensures
            copy.deep_view() == self.deep_view(),
    {
        self.duplicate()
    }
}

impl PlainValue for CompiledSourceByteCount {
    fn duplicate(&self) -> (copy: Self) {
        match self {
            CompiledSourceByteCount::Known { byte_count } => CompiledSourceByteCount::Known {
                byte_count: byte_count.duplicate(),
            },
            CompiledSourceByteCount::Unavailable { reason } =>
                CompiledSourceByteCount::Unavailable {
                    reason: reason.duplicate(),
                },
        }
    }

    fn same(&self, other: &Self) -> (equal: bool) {
        match (self, other) {
            (
                CompiledSourceByteCount::Known { byte_count: left_byte_count },
                CompiledSourceByteCount::Known { byte_count: right_byte_count },
            ) => left_byte_count.same(right_byte_count),
            (
                CompiledSourceByteCount::Unavailable { reason: left_reason },
                CompiledSourceByteCount::Unavailable { reason: right_reason },
            ) => left_reason.same(right_reason),
            _ => false,
        }
    }
}

/// A compiled resource.
#[derive(Debug, PartialEq, Eq)]
pub struct CompiledResource {
    pub id: String,
    pub source_byte_count: CompiledSourceByteCount,
}

/// The model of [`CompiledResource`].
pub struct CompiledResourceModel {
    pub id: Seq<char>,
    pub source_byte_count: CompiledSourceByteCountModel,
}

impl DeepView for CompiledResource {
    type V = CompiledResourceModel;

    open spec fn deep_view(&self) -> CompiledResourceModel {
        CompiledResourceModel {
            id: self.id.deep_view(),
            source_byte_count: self.source_byte_count.deep_view(),
        }
    }
}

impl Clone for CompiledResource {
    fn clone(&self) -> (copy: Self)
        ensures
            copy.deep_view() == self.deep_view(),
    {
        self.duplicate()
    }
}

impl PlainValue for CompiledResource {
    fn duplicate(&self) -> (copy: Self) {
        CompiledResource {
            id: self.id.duplicate(),
            source_byte_count: self.source_byte_count.duplicate(),
        }
    }

    fn same(&self, other: &Self) -> (equal: bool) {
        self.id.same(&other.id)
            && self.source_byte_count.same(&other.source_byte_count)
    }
}

/// What a selector selects from.
#[derive(Debug, PartialEq, Eq)]
pub enum CompiledResourceSelectorMapping {
    GroupTable { atomic_group_ids: Vec<String> },
    Direct,
}

/// The model of [`CompiledResourceSelectorMapping`].
pub enum CompiledResourceSelectorMappingModel {
    GroupTable { atomic_group_ids: Seq<Seq<char>> },
    Direct,
}

impl DeepView for CompiledResourceSelectorMapping {
    type V = CompiledResourceSelectorMappingModel;

    open spec fn deep_view(&self) -> CompiledResourceSelectorMappingModel {
        match self {
            CompiledResourceSelectorMapping::GroupTable { atomic_group_ids } =>
                CompiledResourceSelectorMappingModel::GroupTable {
                    atomic_group_ids: atomic_group_ids.deep_view(),
                },
            CompiledResourceSelectorMapping::Direct => CompiledResourceSelectorMappingModel::Direct,
        }
    }
}

impl Clone for CompiledResourceSelectorMapping {
    fn clone(&self) -> (copy: Self)
        ensures
            copy.deep_view() == self.deep_view(),
    {
        self.duplicate()
    }
}

impl PlainValue for CompiledResourceSelectorMapping {
    fn duplicate(&self) -> (copy: Self) {
        match self {
            CompiledResourceSelectorMapping::GroupTable { atomic_group_ids } =>
                CompiledResourceSelectorMapping::GroupTable {
                    atomic_group_ids: atomic_group_ids.duplicate(),
                },
            CompiledResourceSelectorMapping::Direct => CompiledResourceSelectorMapping::Direct,
        }
    }

    fn same(&self, other: &Self) -> (equal: bool) {
        match (self, other) {
            (
                CompiledResourceSelectorMapping::GroupTable {
                    atomic_group_ids: left_atomic_group_ids,
                },
                CompiledResourceSelectorMapping::GroupTable {
                    atomic_group_ids: right_atomic_group_ids,
                },
            ) => left_atomic_group_ids.same(right_atomic_group_ids),
            (CompiledResourceSelectorMapping::Direct, CompiledResourceSelectorMapping::Direct) =>
                true,
            _ => false,
        }
    }
}

/// A selector over resources.
#[derive(Debug, PartialEq, Eq)]
pub struct CompiledResourceSelector {
    pub id: String,
    pub execution_scope: String,
    pub component_id: String,
    pub node_id: String,
    pub domain_id: String,
    pub selection_signal: String,
    pub resource_count: usize,
    pub selection_count_per_activation: usize,
    pub mapping: CompiledResourceSelectorMapping,
}

/// The model of [`CompiledResourceSelector`].
pub struct CompiledResourceSelectorModel {
    pub id: Seq<char>,
    pub execution_scope: Seq<char>,
    pub component_id: Seq<char>,
    pub node_id: Seq<char>,
    pub domain_id: Seq<char>,
    pub selection_signal: Seq<char>,
    pub resource_count: usize,
    pub selection_count_per_activation: usize,
    pub mapping: CompiledResourceSelectorMappingModel,
}

impl DeepView for CompiledResourceSelector {
    type V = CompiledResourceSelectorModel;

    open spec fn deep_view(&self) -> CompiledResourceSelectorModel {
        CompiledResourceSelectorModel {
            id: self.id.deep_view(),
            execution_scope: self.execution_scope.deep_view(),
            component_id: self.component_id.deep_view(),
            node_id: self.node_id.deep_view(),
            domain_id: self.domain_id.deep_view(),
            selection_signal: self.selection_signal.deep_view(),
            resource_count: self.resource_count.deep_view(),
            selection_count_per_activation: self.selection_count_per_activation.deep_view(),
            mapping: self.mapping.deep_view(),
        }
    }
}

impl Clone for CompiledResourceSelector {
    fn clone(&self) -> (copy: Self)
        ensures
            copy.deep_view() == self.deep_view(),
    {
        self.duplicate()
    }
}

impl PlainValue for CompiledResourceSelector {
    fn duplicate(&self) -> (copy: Self) {
        CompiledResourceSelector {
            id: self.id.duplicate(),
            execution_scope: self.execution_scope.duplicate(),
            component_id: self.component_id.duplicate(),
            node_id: self.node_id.duplicate(),
            domain_id: self.domain_id.duplicate(),
            selection_signal: self.selection_signal.duplicate(),
            resource_count: self.resource_count.duplicate(),
            selection_count_per_activation: self.selection_count_per_activation.duplicate(),
            mapping: self.mapping.duplicate(),
        }
    }

    fn same(&self, other: &Self) -> (equal: bool) {
        self.id.same(&other.id)
            && self.execution_scope.same(&other.execution_scope)
            && self.component_id.same(&other.component_id)
            && self.node_id.same(&other.node_id)
            && self.domain_id.same(&other.domain_id)
            && self.selection_signal.same(&other.selection_signal)
            && self.resource_count.same(&other.resource_count)
            && self.selection_count_per_activation.same(&other.selection_count_per_activation)
            && self.mapping.same(&other.mapping)
    }
}

/// Which resource a binding reads.
#[derive(Debug, PartialEq, Eq)]
pub enum CompiledResourceBindingMapping {
    SelectedAtomicGroup {
        atomic_group_id: String,
        resource_id: String,
        selection_signal: String,
        selector_index: usize,
        parameter_slot: usize,
    },
    Direct,
}

/// The model of [`CompiledResourceBindingMapping`].
pub enum CompiledResourceBindingMappingModel {
    SelectedAtomicGroup {
        atomic_group_id: Seq<char>,
        resource_id: Seq<char>,
        selection_signal: Seq<char>,
        selector_index: usize,
        parameter_slot: usize,
    },
    Direct,
}

impl DeepView for CompiledResourceBindingMapping {
    type V = CompiledResourceBindingMappingModel;

    open spec fn deep_view(&self) -> CompiledResourceBindingMappingModel {
        match self {
            CompiledResourceBindingMapping::SelectedAtomicGroup {
                atomic_group_id,
                resource_id,
                selection_signal,
                selector_index,
                parameter_slot,
            } => CompiledResourceBindingMappingModel::SelectedAtomicGroup {
                atomic_group_id: atomic_group_id.deep_view(),
                resource_id: resource_id.deep_view(),
                selection_signal: selection_signal.deep_view(),
                selector_index: selector_index.deep_view(),
                parameter_slot: parameter_slot.deep_view(),
            },
            CompiledResourceBindingMapping::Direct => CompiledResourceBindingMappingModel::Direct,
        }
    }
}

impl Clone for CompiledResourceBindingMapping {
    fn clone(&self) -> (copy: Self)
        ensures
            copy.deep_view() == self.deep_view(),
    {
        self.duplicate()
    }
}

impl PlainValue for CompiledResourceBindingMapping {
    fn duplicate(&self) -> (copy: Self) {
        match self {
            CompiledResourceBindingMapping::SelectedAtomicGroup {
                atomic_group_id,
                resource_id,
                selection_signal,
                selector_index,
                parameter_slot,
            } => CompiledResourceBindingMapping::SelectedAtomicGroup {
                atomic_group_id: atomic_group_id.duplicate(),
                resource_id: resource_id.duplicate(),
                selection_signal: selection_signal.duplicate(),
                selector_index: selector_index.duplicate(),
                parameter_slot: parameter_slot.duplicate(),
            },
            CompiledResourceBindingMapping::Direct => CompiledResourceBindingMapping::Direct,
        }
    }

    fn same(&self, other: &Self) -> (equal: bool) {
        match (self, other) {
            (
                CompiledResourceBindingMapping::SelectedAtomicGroup {
                    atomic_group_id: left_atomic_group_id,
                    resource_id: left_resource_id,
                    selection_signal: left_selection_signal,
                    selector_index: left_selector_index,
                    parameter_slot: left_parameter_slot,
                },
                CompiledResourceBindingMapping::SelectedAtomicGroup {
                    atomic_group_id: right_atomic_group_id,
                    resource_id: right_resource_id,
                    selection_signal: right_selection_signal,
                    selector_index: right_selector_index,
                    parameter_slot: right_parameter_slot,
                },
            ) =>
                left_atomic_group_id.same(right_atomic_group_id)
                    && left_resource_id.same(right_resource_id)
                    && left_selection_signal.same(right_selection_signal)
                    && left_selector_index.same(right_selector_index)
                    && left_parameter_slot.same(right_parameter_slot),
            (CompiledResourceBindingMapping::Direct, CompiledResourceBindingMapping::Direct) =>
                true,
            _ => false,
        }
    }
}

/// A binding of a compiled resource.
#[derive(Debug, PartialEq, Eq)]
pub struct CompiledResourceBinding {
    pub execution_scope: String,
    pub component_id: String,
    pub node_id: String,
    pub mapping: CompiledResourceBindingMapping,
}

/// The model of [`CompiledResourceBinding`].
pub struct CompiledResourceBindingModel {
    pub execution_scope: Seq<char>,
    pub component_id: Seq<char>,
    pub node_id: Seq<char>,
    pub mapping: CompiledResourceBindingMappingModel,
}

impl DeepView for CompiledResourceBinding {
    type V = CompiledResourceBindingModel;

    open spec fn deep_view(&self) -> CompiledResourceBindingModel {
        CompiledResourceBindingModel {
            execution_scope: self.execution_scope.deep_view(),
            component_id: self.component_id.deep_view(),
            node_id: self.node_id.deep_view(),
            mapping: self.mapping.deep_view(),
        }
    }
}

impl Clone for CompiledResourceBinding {
    fn clone(&self) -> (copy: Self)
        ensures
            copy.deep_view() == self.deep_view(),
    {
        self.duplicate()
    }
}

impl PlainValue for CompiledResourceBinding {
    fn duplicate(&self) -> (copy: Self) {
        CompiledResourceBinding {
            execution_scope: self.execution_scope.duplicate(),
            component_id: self.component_id.duplicate(),
            node_id: self.node_id.duplicate(),
            mapping: self.mapping.duplicate(),
        }
    }

    fn same(&self, other: &Self) -> (equal: bool) {
        self.execution_scope.same(&other.execution_scope)
            && self.component_id.same(&other.component_id)
            && self.node_id.same(&other.node_id)
            && self.mapping.same(&other.mapping)
    }
}

/// What a package promises about the residency of its resources.
#[derive(Debug, PartialEq, Eq)]
pub struct CompiledResourceResidencyContract {
    pub atomic_groups: Vec<CompiledAtomicGroup>,
    pub resources: Vec<CompiledResource>,
    pub selectors: Vec<CompiledResourceSelector>,
    pub bindings: Vec<CompiledResourceBinding>,
}

/// The model of [`CompiledResourceResidencyContract`].
pub struct CompiledResourceResidencyContractModel {
    pub atomic_groups: Seq<CompiledAtomicGroupModel>,
    pub resources: Seq<CompiledResourceModel>,
    pub selectors: Seq<CompiledResourceSelectorModel>,
    pub bindings: Seq<CompiledResourceBindingModel>,
}

impl DeepView for CompiledResourceResidencyContract {
    type V = CompiledResourceResidencyContractModel;

    open spec fn deep_view(&self) -> CompiledResourceResidencyContractModel {
        CompiledResourceResidencyContractModel {
            atomic_groups: self.atomic_groups.deep_view(),
            resources: self.resources.deep_view(),
            selectors: self.selectors.deep_view(),
            bindings: self.bindings.deep_view(),
        }
    }
}

impl Clone for CompiledResourceResidencyContract {
    fn clone(&self) -> (copy: Self)
        ensures
            copy.deep_view() == self.deep_view(),
    {
        self.duplicate()
    }
}

impl PlainValue for CompiledResourceResidencyContract {
    fn duplicate(&self) -> (copy: Self) {
        CompiledResourceResidencyContract {
            atomic_groups: self.atomic_groups.duplicate(),
            resources: self.resources.duplicate(),
            selectors: self.selectors.duplicate(),
            bindings: self.bindings.duplicate(),
        }
    }

    fn same(&self, other: &Self) -> (equal: bool) {
        self.atomic_groups.same(&other.atomic_groups)
            && self.resources.same(&other.resources)
            && self.selectors.same(&other.selectors)
            && self.bindings.same(&other.bindings)
    }
}

} // verus!
