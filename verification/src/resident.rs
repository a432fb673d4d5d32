//! Resident buffers and their bindings to kernels.
use vstd::prelude::*;

use crate::values::PlainValue;

verus! {

/// A buffer that a device keeps resident, by the handle that the device gave it.
#[derive(Clone, Copy, Debug, PartialEq, Eq, Structural)]
pub struct VulkanResidentBuffer {
    pub handle: u64,
    pub byte_capacity: usize,
}

impl DeepView for VulkanResidentBuffer {
    type V = VulkanResidentBuffer;

    open spec fn deep_view(&self) -> VulkanResidentBuffer {
        *self
    }
}

impl PlainValue for VulkanResidentBuffer {
    fn duplicate(&self) -> (copy: Self) {
        *self
    }

    fn same(&self, other: &Self) -> (equal: bool) {
        *self == *other
    }
}

/// A part of a resident buffer.
#[derive(Clone, Copy, Debug, PartialEq, Eq, Structural)]
pub struct VulkanArenaAllocation {
    pub buffer: VulkanResidentBuffer,
    pub byte_offset: usize,
}

impl DeepView for VulkanArenaAllocation {
    type V = VulkanArenaAllocation;

    open spec fn deep_view(&self) -> VulkanArenaAllocation {
        *self
    }
}

impl PlainValue for VulkanArenaAllocation {
    fn duplicate(&self) -> (copy: Self) {
        *self
    }

    fn same(&self, other: &Self) -> (equal: bool) {
        *self == *other
    }
}

/// Why a device did not do what was asked of it: it is unknown, or it failed.
#[derive(Debug, PartialEq, Eq)]
pub enum VulkanDeviceFailure {
    Unresolved { reason: String },
    Failed { reason: String },
}

/// The model of [`VulkanDeviceFailure`].
pub enum VulkanDeviceFailureModel {
    Unresolved { reason: Seq<char> },
    Failed { reason: Seq<char> },
}

impl DeepView for VulkanDeviceFailure {
    type V = VulkanDeviceFailureModel;

    open spec fn deep_view(&self) -> VulkanDeviceFailureModel {
        match self {
            VulkanDeviceFailure::Unresolved { reason } => VulkanDeviceFailureModel::Unresolved {
                reason: reason.deep_view(),
            },
            VulkanDeviceFailure::Failed { reason } => VulkanDeviceFailureModel::Failed {
                reason: reason.deep_view(),
            },
        }
    }
}

impl Clone for VulkanDeviceFailure {
    fn clone(&self) -> (copy: Self)
        ensures
            copy.deep_view() == self.deep_view(),
    {
        self.duplicate()
    }
}

impl PlainValue for VulkanDeviceFailure {
    fn duplicate(&self) -> (copy: Self) {
        match self {
            VulkanDeviceFailure::Unresolved { reason } => VulkanDeviceFailure::Unresolved {
                reason: reason.duplicate(),
            },
            VulkanDeviceFailure::Failed { reason } => VulkanDeviceFailure::Failed {
                reason: reason.duplicate(),
            },
        }
    }

    fn same(&self, other: &Self) -> (equal: bool) {
        match (self, other) {
            (
                VulkanDeviceFailure::Unresolved { reason: left_reason },
                VulkanDeviceFailure::Unresolved { reason: right_reason },
            ) => left_reason.same(right_reason),
            (
                VulkanDeviceFailure::Failed { reason: left_reason },
                VulkanDeviceFailure::Failed { reason: right_reason },
            ) => left_reason.same(right_reason),
            _ => false,
        }
    }
}

/// What a kernel does with a buffer.
#[derive(Clone, Copy, Debug, PartialEq, Eq, Structural)]
pub enum VulkanResidentKernelBufferAccess {
    Read,
    Write,
    ReadWrite,
}

impl DeepView for VulkanResidentKernelBufferAccess {
    type V = VulkanResidentKernelBufferAccess;

    open spec fn deep_view(&self) -> VulkanResidentKernelBufferAccess {
        *self
    }
}

impl PlainValue for VulkanResidentKernelBufferAccess {
    fn duplicate(&self) -> (copy: Self) {
        *self
    }

    fn same(&self, other: &Self) -> (equal: bool) {
        *self == *other
    }
}

/// A byte range of a buffer at a binding of a kernel.
#[derive(Clone, Copy, Debug, PartialEq, Eq, Structural)]
pub struct VulkanResidentKernelBufferBinding {
    pub binding: u32,
    pub buffer: VulkanResidentBuffer,
    pub byte_offset: usize,
    pub byte_count: usize,
    pub access: VulkanResidentKernelBufferAccess,
}

impl DeepView for VulkanResidentKernelBufferBinding {
    type V = VulkanResidentKernelBufferBinding;

    open spec fn deep_view(&self) -> VulkanResidentKernelBufferBinding {
        *self
    }
}

impl PlainValue for VulkanResidentKernelBufferBinding {
    fn duplicate(&self) -> (copy: Self) {
        *self
    }

    fn same(&self, other: &Self) -> (equal: bool) {
        *self == *other
    }
}

impl VulkanResidentKernelBufferBinding {
    /// Binds the first bytes of a buffer for reading and writing.
    pub fn new(binding: u32, buffer: &VulkanResidentBuffer, byte_count: usize) -> (result: Self)
        ensures
            result == (VulkanResidentKernelBufferBinding {
                binding,
                buffer: *buffer,
                byte_offset: 0,
                byte_count,
                access: VulkanResidentKernelBufferAccess::ReadWrite,
            }),
    {
        VulkanResidentKernelBufferBinding {
            binding,
            buffer: *buffer,
            byte_offset: 0,
            byte_count,
            access: VulkanResidentKernelBufferAccess::ReadWrite,
        }
    }

    /// The same bytes, from another offset on.
    pub fn with_byte_offset(self, byte_offset: usize) -> (result: Self)
        ensures
            result == (VulkanResidentKernelBufferBinding { byte_offset, ..self }),
    {
        VulkanResidentKernelBufferBinding { byte_offset, ..self }
    }

    /// The same bytes, with another access.
    pub fn with_access(self, access: VulkanResidentKernelBufferAccess) -> (result: Self)
        ensures
            result == (VulkanResidentKernelBufferBinding { access, ..self }),
    {
        VulkanResidentKernelBufferBinding { access, ..self }
    }
}

} // verus!
