//! The activations of a plan on its devices.
use vstd::prelude::*;

use crate::activation_plans::{
    VulkanDistributedActivationBufferAllocation, VulkanDistributedActivationBufferAllocationModel,
    VulkanDistributedActivationBufferPlan, VulkanDistributedActivationBufferPlanModel,
    VulkanDistributedPrivateIntermediateBufferAllocation,
    VulkanDistributedPrivateIntermediateBufferAllocationModel,
    VulkanDistributedPrivateIntermediateDeviceAllocation,
    VulkanDistributedPrivateIntermediateDeviceAllocationModel,
    VulkanDistributedReductionBufferAllocation, VulkanDistributedReductionBufferAllocationModel,
};
use crate::errors::VulkanDistributedActivationBufferError;
use crate::execution_plans::{VulkanDistributedActivationStorage, VulkanSharedResidentBufferRoute};
use crate::ordered::OrderedMap;
use crate::resident::{VulkanDeviceFailure, VulkanDeviceFailureModel, VulkanResidentBuffer};
use crate::sequences::{append, kept, lemma_kept_step};
use crate::text::{debug_text, decimal, decimal_text, join3, join4, join6, join7, join8, quoted};
use crate::values::PlainValue;

verus! {

/// Why devices did not share a buffer: the owner is unknown, another device is
/// unknown, or they failed.
#[derive(Debug, PartialEq, Eq)]
pub enum VulkanSharingFailure {
    OwnerUnresolved { reason: String },
    ParticipantUnresolved { device_id: String, reason: String },
    Failed { reason: String },
}

/// The model of [`VulkanSharingFailure`].
pub enum VulkanSharingFailureModel {
    OwnerUnresolved { reason: Seq<char> },
    ParticipantUnresolved { device_id: Seq<char>, reason: Seq<char> },
    Failed { reason: Seq<char> },
}

impl DeepView for VulkanSharingFailure {
    type V = VulkanSharingFailureModel;

    open spec fn deep_view(&self) -> VulkanSharingFailureModel {
        match self {
            VulkanSharingFailure::OwnerUnresolved { reason } =>
                VulkanSharingFailureModel::OwnerUnresolved {
                    reason: reason.deep_view(),
                },
            VulkanSharingFailure::ParticipantUnresolved { device_id, reason } =>
                VulkanSharingFailureModel::ParticipantUnresolved {
                    device_id: device_id.deep_view(),
                    reason: reason.deep_view(),
                },
            VulkanSharingFailure::Failed { reason } => VulkanSharingFailureModel::Failed {
                reason: reason.deep_view(),
            },
        }
    }
}

impl Clone for VulkanSharingFailure {
    fn clone(&self) -> (copy: Self)
        ensures
            copy.deep_view() == self.deep_view(),
    {
        self.duplicate()
    }
}

impl PlainValue for VulkanSharingFailure {
    fn duplicate(&self) -> (copy: Self) {
        match self {
            VulkanSharingFailure::OwnerUnresolved { reason } =>
                VulkanSharingFailure::OwnerUnresolved {
                    reason: reason.duplicate(),
                },
            VulkanSharingFailure::ParticipantUnresolved { device_id, reason } =>
                VulkanSharingFailure::ParticipantUnresolved {
                    device_id: device_id.duplicate(),
                    reason: reason.duplicate(),
                },
            VulkanSharingFailure::Failed { reason } => VulkanSharingFailure::Failed {
                reason: reason.duplicate(),
            },
        }
    }

    fn same(&self, other: &Self) -> (equal: bool) {
        match (self, other) {
            (
                VulkanSharingFailure::OwnerUnresolved { reason: left_reason },
                VulkanSharingFailure::OwnerUnresolved { reason: right_reason },
            ) => left_reason.same(right_reason),
            (
                VulkanSharingFailure::ParticipantUnresolved {
                    device_id: left_device_id,
                    reason: left_reason,
                },
                VulkanSharingFailure::ParticipantUnresolved {
                    device_id: right_device_id,
                    reason: right_reason,
                },
            ) => left_device_id.same(right_device_id) && left_reason.same(right_reason),
            (
                VulkanSharingFailure::Failed { reason: left_reason },
                VulkanSharingFailure::Failed { reason: right_reason },
            ) => left_reason.same(right_reason),
            _ => false,
        }
    }
}

/// A buffer as its owner and then each of the other devices sees it.
#[derive(Debug, PartialEq, Eq)]
pub struct VulkanSharedResidentBuffers {
    pub route: VulkanSharedResidentBufferRoute,
    pub external_device_local_error: Option<String>,
    pub buffers: Vec<VulkanResidentBuffer>,
}

/// The model of [`VulkanSharedResidentBuffers`].
pub struct VulkanSharedResidentBuffersModel {
    pub route: VulkanSharedResidentBufferRoute,
    pub external_device_local_error: Option<Seq<char>>,
    pub buffers: Seq<VulkanResidentBuffer>,
}

impl DeepView for VulkanSharedResidentBuffers {
    type V = VulkanSharedResidentBuffersModel;

    open spec fn deep_view(&self) -> VulkanSharedResidentBuffersModel {
        VulkanSharedResidentBuffersModel {
            route: self.route.deep_view(),
            external_device_local_error: self.external_device_local_error.deep_view(),
            buffers: self.buffers.deep_view(),
        }
    }
}

impl Clone for VulkanSharedResidentBuffers {
    fn clone(&self) -> (copy: Self)
        ensures
            copy.deep_view() == self.deep_view(),
    {
        self.duplicate()
    }
}

impl PlainValue for VulkanSharedResidentBuffers {
    fn duplicate(&self) -> (copy: Self) {
        VulkanSharedResidentBuffers {
            route: self.route.duplicate(),
            external_device_local_error: self.external_device_local_error.duplicate(),
            buffers: self.buffers.duplicate(),
        }
    }

    fn same(&self, other: &Self) -> (equal: bool) {
        self.route.same(&other.route)
            && self.external_device_local_error.same(&other.external_device_local_error)
            && self.buffers.same(&other.buffers)
    }
}

/// A buffer that several devices share, as each of them sees it.
#[derive(Debug, PartialEq, Eq)]
pub struct VulkanDistributedSharedBufferAllocation {
    pub route: VulkanSharedResidentBufferRoute,
    pub external_device_local_error: Option<String>,
    pub device_buffers: OrderedMap<String, VulkanResidentBuffer>,
}

/// The model of [`VulkanDistributedSharedBufferAllocation`].
pub struct VulkanDistributedSharedBufferAllocationModel {
    pub route: VulkanSharedResidentBufferRoute,
    pub external_device_local_error: Option<Seq<char>>,
    pub device_buffers: Map<Seq<char>, VulkanResidentBuffer>,
}

impl DeepView for VulkanDistributedSharedBufferAllocation {
    type V = VulkanDistributedSharedBufferAllocationModel;

    open spec fn deep_view(&self) -> VulkanDistributedSharedBufferAllocationModel {
        VulkanDistributedSharedBufferAllocationModel {
            route: self.route.deep_view(),
            external_device_local_error: self.external_device_local_error.deep_view(),
            device_buffers: self.device_buffers.deep_view(),
        }
    }
}

impl Clone for VulkanDistributedSharedBufferAllocation {
    fn clone(&self) -> (copy: Self)
        ensures
            copy.deep_view() == self.deep_view(),
    {
        self.duplicate()
    }
}

impl PlainValue for VulkanDistributedSharedBufferAllocation {
    fn duplicate(&self) -> (copy: Self) {
        VulkanDistributedSharedBufferAllocation {
            route: self.route.duplicate(),
            external_device_local_error: self.external_device_local_error.duplicate(),
            device_buffers: self.device_buffers.duplicate(),
        }
    }

    fn same(&self, other: &Self) -> (equal: bool) {
        self.route.same(&other.route)
            && self.external_device_local_error.same(&other.external_device_local_error)
            && self.device_buffers.same(&other.device_buffers)
    }
}

/// A shared activation on its devices.
#[derive(Debug, PartialEq, Eq)]
pub struct VulkanDistributedActivationBuffer {
    pub planned: VulkanDistributedActivationBufferAllocation,
    pub route: VulkanSharedResidentBufferRoute,
    pub external_device_local_error: Option<String>,
    pub device_buffers: OrderedMap<String, VulkanResidentBuffer>,
}

/// The model of [`VulkanDistributedActivationBuffer`].
pub struct VulkanDistributedActivationBufferModel {
    pub planned: VulkanDistributedActivationBufferAllocationModel,
    pub route: VulkanSharedResidentBufferRoute,
    pub external_device_local_error: Option<Seq<char>>,
    pub device_buffers: Map<Seq<char>, VulkanResidentBuffer>,
}

impl DeepView for VulkanDistributedActivationBuffer {
    type V = VulkanDistributedActivationBufferModel;

    open spec fn deep_view(&self) -> VulkanDistributedActivationBufferModel {
        VulkanDistributedActivationBufferModel {
            planned: self.planned.deep_view(),
            route: self.route.deep_view(),
            external_device_local_error: self.external_device_local_error.deep_view(),
            device_buffers: self.device_buffers.deep_view(),
        }
    }
}

impl Clone for VulkanDistributedActivationBuffer {
    fn clone(&self) -> (copy: Self)
        ensures
            copy.deep_view() == self.deep_view(),
    {
        self.duplicate()
    }
}

impl PlainValue for VulkanDistributedActivationBuffer {
    fn duplicate(&self) -> (copy: Self) {
        VulkanDistributedActivationBuffer {
            planned: self.planned.duplicate(),
            route: self.route.duplicate(),
            external_device_local_error: self.external_device_local_error.duplicate(),
            device_buffers: self.device_buffers.duplicate(),
        }
    }

    fn same(&self, other: &Self) -> (equal: bool) {
        self.planned.same(&other.planned)
            && self.route.same(&other.route)
            && self.external_device_local_error.same(&other.external_device_local_error)
            && self.device_buffers.same(&other.device_buffers)
    }
}

/// The partial outputs of a reduced dispatch on its devices.
#[derive(Debug, PartialEq, Eq)]
pub struct VulkanDistributedReductionBuffer {
    pub planned: VulkanDistributedReductionBufferAllocation,
    pub route: VulkanSharedResidentBufferRoute,
    pub external_device_local_error: Option<String>,
    pub device_buffers: OrderedMap<String, VulkanResidentBuffer>,
}

/// The model of [`VulkanDistributedReductionBuffer`].
pub struct VulkanDistributedReductionBufferModel {
    pub planned: VulkanDistributedReductionBufferAllocationModel,
    pub route: VulkanSharedResidentBufferRoute,
    pub external_device_local_error: Option<Seq<char>>,
    pub device_buffers: Map<Seq<char>, VulkanResidentBuffer>,
}

impl DeepView for VulkanDistributedReductionBuffer {
    type V = VulkanDistributedReductionBufferModel;

    open spec fn deep_view(&self) -> VulkanDistributedReductionBufferModel {
        VulkanDistributedReductionBufferModel {
            planned: self.planned.deep_view(),
            route: self.route.deep_view(),
            external_device_local_error: self.external_device_local_error.deep_view(),
            device_buffers: self.device_buffers.deep_view(),
        }
    }
}

impl Clone for VulkanDistributedReductionBuffer {
    fn clone(&self) -> (copy: Self)
        ensures
            copy.deep_view() == self.deep_view(),
    {
        self.duplicate()
    }
}

impl PlainValue for VulkanDistributedReductionBuffer {
    fn duplicate(&self) -> (copy: Self) {
        VulkanDistributedReductionBuffer {
            planned: self.planned.duplicate(),
            route: self.route.duplicate(),
            external_device_local_error: self.external_device_local_error.duplicate(),
            device_buffers: self.device_buffers.duplicate(),
        }
    }

    fn same(&self, other: &Self) -> (equal: bool) {
        self.planned.same(&other.planned)
            && self.route.same(&other.route)
            && self.external_device_local_error.same(&other.external_device_local_error)
            && self.device_buffers.same(&other.device_buffers)
    }
}

/// A private intermediate on its devices.
#[derive(Debug, PartialEq, Eq)]
pub struct VulkanDistributedPrivateIntermediateBuffer {
    pub planned: VulkanDistributedPrivateIntermediateBufferAllocation,
    pub device_buffers: OrderedMap<String, VulkanResidentBuffer>,
}

/// The model of [`VulkanDistributedPrivateIntermediateBuffer`].
pub struct VulkanDistributedPrivateIntermediateBufferModel {
    pub planned: VulkanDistributedPrivateIntermediateBufferAllocationModel,
    pub device_buffers: Map<Seq<char>, VulkanResidentBuffer>,
}

impl DeepView for VulkanDistributedPrivateIntermediateBuffer {
    type V = VulkanDistributedPrivateIntermediateBufferModel;

    open spec fn deep_view(&self) -> VulkanDistributedPrivateIntermediateBufferModel {
        VulkanDistributedPrivateIntermediateBufferModel {
            planned: self.planned.deep_view(),
            device_buffers: self.device_buffers.deep_view(),
        }
    }
}

impl Clone for VulkanDistributedPrivateIntermediateBuffer {
    fn clone(&self) -> (copy: Self)
        ensures
            copy.deep_view() == self.deep_view(),
    {
        self.duplicate()
    }
}

impl PlainValue for VulkanDistributedPrivateIntermediateBuffer {
    fn duplicate(&self) -> (copy: Self) {
        VulkanDistributedPrivateIntermediateBuffer {
            planned: self.planned.duplicate(),
            device_buffers: self.device_buffers.duplicate(),
        }
    }

    fn same(&self, other: &Self) -> (equal: bool) {
        self.planned.same(&other.planned)
            && self.device_buffers.same(&other.device_buffers)
    }
}

/// The activations of a plan on its devices.
#[derive(Debug, PartialEq, Eq)]
pub struct VulkanDistributedActivationBuffers {
    pub plan: VulkanDistributedActivationBufferPlan,
    pub lane_capacity: usize,
    pub allocations: Vec<VulkanDistributedActivationBuffer>,
    pub reduction_allocations: Vec<VulkanDistributedReductionBuffer>,
    pub private_intermediate_allocations: Vec<VulkanDistributedPrivateIntermediateBuffer>,
    pub allocation_count: usize,
    pub import_count: usize,
    pub total_shared_byte_capacity: usize,
    pub total_private_byte_capacity: usize,
}

/// The model of [`VulkanDistributedActivationBuffers`].
pub struct VulkanDistributedActivationBuffersModel {
    pub plan: VulkanDistributedActivationBufferPlanModel,
    pub lane_capacity: usize,
    pub allocations: Seq<VulkanDistributedActivationBufferModel>,
    pub reduction_allocations: Seq<VulkanDistributedReductionBufferModel>,
    pub private_intermediate_allocations: Seq<VulkanDistributedPrivateIntermediateBufferModel>,
    pub allocation_count: usize,
    pub import_count: usize,
    pub total_shared_byte_capacity: usize,
    pub total_private_byte_capacity: usize,
}

impl DeepView for VulkanDistributedActivationBuffers {
    type V = VulkanDistributedActivationBuffersModel;

    open spec fn deep_view(&self) -> VulkanDistributedActivationBuffersModel {
        VulkanDistributedActivationBuffersModel {
            plan: self.plan.deep_view(),
            lane_capacity: self.lane_capacity.deep_view(),
            allocations: self.allocations.deep_view(),
            reduction_allocations: self.reduction_allocations.deep_view(),
            private_intermediate_allocations: self.private_intermediate_allocations.deep_view(),
            allocation_count: self.allocation_count.deep_view(),
            import_count: self.import_count.deep_view(),
            total_shared_byte_capacity: self.total_shared_byte_capacity.deep_view(),
            total_private_byte_capacity: self.total_private_byte_capacity.deep_view(),
        }
    }
}

impl Clone for VulkanDistributedActivationBuffers {
    fn clone(&self) -> (copy: Self)
        ensures
            copy.deep_view() == self.deep_view(),
    {
        self.duplicate()
    }
}

impl PlainValue for VulkanDistributedActivationBuffers {
    fn duplicate(&self) -> (copy: Self) {
        VulkanDistributedActivationBuffers {
            plan: self.plan.duplicate(),
            lane_capacity: self.lane_capacity.duplicate(),
            allocations: self.allocations.duplicate(),
            reduction_allocations: self.reduction_allocations.duplicate(),
            private_intermediate_allocations: self.private_intermediate_allocations.duplicate(),
            allocation_count: self.allocation_count.duplicate(),
            import_count: self.import_count.duplicate(),
            total_shared_byte_capacity: self.total_shared_byte_capacity.duplicate(),
            total_private_byte_capacity: self.total_private_byte_capacity.duplicate(),
        }
    }

    fn same(&self, other: &Self) -> (equal: bool) {
        self.plan.same(&other.plan)
            && self.lane_capacity.same(&other.lane_capacity)
            && self.allocations.same(&other.allocations)
            && self.reduction_allocations.same(&other.reduction_allocations)
            && self.private_intermediate_allocations.same(&other.private_intermediate_allocations)
            && self.allocation_count.same(&other.allocation_count)
            && self.import_count.same(&other.import_count)
            && self.total_shared_byte_capacity.same(&other.total_shared_byte_capacity)
            && self.total_private_byte_capacity.same(&other.total_private_byte_capacity)
    }
}

/// The buffer that stands for an activation slot of a component.
#[derive(Debug, PartialEq, Eq)]
pub struct VulkanActivationSlotBufferOverride {
    pub component_id: String,
    pub slot: usize,
    pub buffer: VulkanResidentBuffer,
}

/// The model of [`VulkanActivationSlotBufferOverride`].
pub struct VulkanActivationSlotBufferOverrideModel {
    pub component_id: Seq<char>,
    pub slot: usize,
    pub buffer: VulkanResidentBuffer,
}

impl DeepView for VulkanActivationSlotBufferOverride {
    type V = VulkanActivationSlotBufferOverrideModel;

    open spec fn deep_view(&self) -> VulkanActivationSlotBufferOverrideModel {
        VulkanActivationSlotBufferOverrideModel {
            component_id: self.component_id.deep_view(),
            slot: self.slot.deep_view(),
            buffer: self.buffer.deep_view(),
        }
    }
}

impl Clone for VulkanActivationSlotBufferOverride {
    fn clone(&self) -> (copy: Self)
        ensures
            copy.deep_view() == self.deep_view(),
    {
        self.duplicate()
    }
}

impl PlainValue for VulkanActivationSlotBufferOverride {
    fn duplicate(&self) -> (copy: Self) {
        VulkanActivationSlotBufferOverride {
            component_id: self.component_id.duplicate(),
            slot: self.slot.duplicate(),
            buffer: self.buffer.duplicate(),
        }
    }

    fn same(&self, other: &Self) -> (equal: bool) {
        self.component_id.same(&other.component_id)
            && self.slot.same(&other.slot)
            && self.buffer.same(&other.buffer)
    }
}

/// The side of a model on which a signal crosses its boundary.
#[derive(Clone, Copy, Debug, PartialEq, Eq, Structural)]
pub enum VulkanModelBoundaryDirection {
    Input,
    Output,
}

impl DeepView for VulkanModelBoundaryDirection {
    type V = VulkanModelBoundaryDirection;

    open spec fn deep_view(&self) -> VulkanModelBoundaryDirection {
        *self
    }
}

impl PlainValue for VulkanModelBoundaryDirection {
    fn duplicate(&self) -> (copy: Self) {
        *self
    }

    fn same(&self, other: &Self) -> (equal: bool) {
        *self == *other
    }
}

/// The buffer that stands for a signal at the boundary of a model.
#[derive(Debug, PartialEq, Eq)]
pub struct VulkanModelBoundaryBufferOverride {
    pub direction: VulkanModelBoundaryDirection,
    pub component_id: String,
    pub signal_id: String,
    pub buffer: VulkanResidentBuffer,
}

/// The model of [`VulkanModelBoundaryBufferOverride`].
pub struct VulkanModelBoundaryBufferOverrideModel {
    pub direction: VulkanModelBoundaryDirection,
    pub component_id: Seq<char>,
    pub signal_id: Seq<char>,
    pub buffer: VulkanResidentBuffer,
}

impl DeepView for VulkanModelBoundaryBufferOverride {
    type V = VulkanModelBoundaryBufferOverrideModel;

    open spec fn deep_view(&self) -> VulkanModelBoundaryBufferOverrideModel {
        VulkanModelBoundaryBufferOverrideModel {
            direction: self.direction.deep_view(),
            component_id: self.component_id.deep_view(),
            signal_id: self.signal_id.deep_view(),
            buffer: self.buffer.deep_view(),
        }
    }
}

impl Clone for VulkanModelBoundaryBufferOverride {
    fn clone(&self) -> (copy: Self)
        ensures
            copy.deep_view() == self.deep_view(),
    {
        self.duplicate()
    }
}

impl PlainValue for VulkanModelBoundaryBufferOverride {
    fn duplicate(&self) -> (copy: Self) {
        VulkanModelBoundaryBufferOverride {
            direction: self.direction.duplicate(),
            component_id: self.component_id.duplicate(),
            signal_id: self.signal_id.duplicate(),
            buffer: self.buffer.duplicate(),
        }
    }

    fn same(&self, other: &Self) -> (equal: bool) {
        self.direction.same(&other.direction)
            && self.component_id.same(&other.component_id)
            && self.signal_id.same(&other.signal_id)
            && self.buffer.same(&other.buffer)
    }
}

/// What the devices share so far: buffers seen by a device, and bytes.
#[derive(Clone, Copy, Debug, PartialEq, Eq, Structural)]
pub struct SharedTally {
    pub imports: usize,
    pub bytes: usize,
}

impl DeepView for SharedTally {
    type V = SharedTally;

    open spec fn deep_view(&self) -> SharedTally {
        *self
    }
}

impl PlainValue for SharedTally {
    fn duplicate(&self) -> (copy: Self) {
        *self
    }

    fn same(&self, other: &Self) -> (equal: bool) {
        *self == *other
    }
}

/// The outcome is the expected one, or an error with the expected text.
pub open spec fn buffers_agree<T: DeepView>(
    outcome: Result<T, VulkanDistributedActivationBufferError>,
    expected: Result<T::V, Seq<char>>,
) -> bool {
    match outcome {
        Ok(value) => expected is Ok && expected->Ok_0 == value.deep_view(),
        Err(error) => expected is Err && expected->Err_0 == error.0@,
    }
}

fn fault<T>(message: String) -> (outcome: Result<T, VulkanDistributedActivationBufferError>)
    ensures
        outcome is Err,
        outcome->Err_0.0@ == message@,
{
    Err(VulkanDistributedActivationBufferError(message))
}

/// A device other than the owner.
pub open spec fn differs_from(owner_device_id: Seq<char>) -> spec_fn(Seq<char>) -> bool {
    |device_id: Seq<char>| device_id != owner_device_id
}

/// The devices that share a buffer with its owner, in their order.
pub open spec fn peers_of(owner_device_id: Seq<char>, device_ids: Seq<Seq<char>>) -> Seq<
    Seq<char>,
> {
    kept(device_ids, differs_from(owner_device_id))
}

fn list_peers(owner_device_id: &String, device_ids: &Vec<String>) -> (peers: Vec<String>)
    ensures
        peers.deep_view() == peers_of(owner_device_id@, device_ids.deep_view()),
{
    let ghost all = device_ids.deep_view();
    let ghost condition = differs_from(owner_device_id@);
    let mut peers: Vec<String> = Vec::new();
    assert(all.take(0) =~= Seq::empty());
    assert(peers.deep_view() =~= Seq::empty());
    for index in 0..device_ids.len()
        invariant
            all == device_ids.deep_view(),
            condition == differs_from(owner_device_id@),
            peers.deep_view() == kept(all.take(index as int), condition),
    {
        proof {
            lemma_kept_step(all, condition, index as int);
            assert(all[index as int] == device_ids@[index as int]@);
        }
        if device_ids[index] != *owner_device_id {
            append(&mut peers, device_ids[index].clone());
        }
    }
    assert(all.take(all.len() as int) =~= all);
    peers
}

/// The buffers after those of the peers from an index on were added.
pub open spec fn peer_buffers_from(
    label: Seq<char>,
    peers: Seq<Seq<char>>,
    buffers: Seq<VulkanResidentBuffer>,
    index: nat,
    found: Map<Seq<char>, VulkanResidentBuffer>,
) -> Result<Map<Seq<char>, VulkanResidentBuffer>, Seq<char>>
    decreases peers.len() - index,
{
    if index >= peers.len() || index + 1 >= buffers.len() {
        Ok(found)
    } else if found.contains_key(peers[index as int]) {
        Err("distributed "@ + label + " repeats device "@ + debug_text(peers[index as int]))
    } else {
        peer_buffers_from(
            label,
            peers,
            buffers,
            index + 1,
            found.insert(peers[index as int], buffers[index as int + 1]),
        )
    }
}

/// What the devices of a buffer see once they share it, or the text of the error.
pub open spec fn shared_outcome(
    owner_device_id: Seq<char>,
    device_ids: Seq<Seq<char>>,
    label: Seq<char>,
    shared: VulkanSharedResidentBuffersModel,
) -> Result<VulkanDistributedSharedBufferAllocationModel, Seq<char>> {
    match peer_buffers_from(
        label,
        peers_of(owner_device_id, device_ids),
        shared.buffers,
        0,
        Map::empty().insert(owner_device_id, shared.buffers[0]),
    ) {
        Err(message) => Err(message),
        Ok(device_buffers) => if device_buffers.dom().len() != device_ids.len() {
            Err(
                "distributed "@ + label + " resolved "@ + decimal_text(device_buffers.dom().len())
                    + " buffers for "@ + decimal_text(device_ids.len()) + " devices"@,
            )
        } else {
            Ok(
                VulkanDistributedSharedBufferAllocationModel {
                    route: shared.route,
                    external_device_local_error: shared.external_device_local_error,
                    device_buffers,
                },
            )
        },
    }
}

/// Gives every device its view of a buffer that they share.
pub fn shared_device_buffers(
    owner_device_id: &String,
    device_ids: &Vec<String>,
    label: &str,
    shared: VulkanSharedResidentBuffers,
) -> (outcome: Result<
    VulkanDistributedSharedBufferAllocation,
    VulkanDistributedActivationBufferError,
>)
    requires
        shared.buffers.len() > 0,
    ensures
        buffers_agree(
            outcome,
            shared_outcome(
                owner_device_id@,
                device_ids.deep_view(),
                label@,
                shared.deep_view(),
            ),
        ),
{
    let peers = list_peers(owner_device_id, device_ids);
    let ghost all = peers.deep_view();
    let ghost buffers = shared.buffers.deep_view();
    let ghost first = Map::<Seq<char>, VulkanResidentBuffer>::empty().insert(
        owner_device_id@,
        buffers[0],
    );
    let mut device_buffers: OrderedMap<String, VulkanResidentBuffer> = OrderedMap::new();
    assert(buffers[0] == shared.buffers@[0]);
    device_buffers.insert(owner_device_id.clone(), shared.buffers[0]);
    let mut index: usize = 0;
    while index < peers.len() && index + 1 < shared.buffers.len()
        invariant
            index <= peers.len(),
            index < shared.buffers.len(),
            all == peers.deep_view(),
            buffers == shared.buffers.deep_view(),
            all == peers_of(owner_device_id@, device_ids.deep_view()),
            first == Map::<Seq<char>, VulkanResidentBuffer>::empty().insert(
                owner_device_id@,
                shared.deep_view().buffers[0],
            ),
            peer_buffers_from(label@, all, buffers, 0, first) == peer_buffers_from(
                label@,
                all,
                buffers,
                index as nat,
                device_buffers.deep_view(),
            ),
        decreases peers.len() - index,
    {
        assert(all[index as int] == peers@[index as int]@);
        assert(buffers[index as int + 1] == shared.buffers@[index as int + 1]);
        if device_buffers.insert(peers[index].clone(), shared.buffers[index + 1]).is_some() {
            return fault(
                join4(
                    "distributed ",
                    label,
                    " repeats device ",
                    quoted(peers[index].as_str()).as_str(),
                ),
            );
        }
        index += 1;
    }
    let count: usize = device_buffers.len();
    if count != device_ids.len() {
        return fault(
            join7(
                "distributed ",
                label,
                " resolved ",
                decimal(count).as_str(),
                " buffers for ",
                decimal(device_ids.len()).as_str(),
                " devices",
            ),
        );
    }
    Ok(
        VulkanDistributedSharedBufferAllocation {
            route: shared.route,
            external_device_local_error: shared.external_device_local_error,
            device_buffers,
        },
    )
}

/// What devices answer when they are asked to share a buffer.
pub type SharingReply = Result<VulkanSharedResidentBuffers, VulkanSharingFailure>;

/// The text of the error of devices that did not share a buffer.
pub open spec fn sharing_text(
    owner_device_id: Seq<char>,
    byte_capacity: usize,
    label: Seq<char>,
    failure: VulkanSharingFailureModel,
) -> Seq<char> {
    match failure {
        VulkanSharingFailureModel::OwnerUnresolved { reason } => "failed to resolve distributed "@
            + label + " owner "@ + debug_text(owner_device_id) + ": "@ + reason,
        VulkanSharingFailureModel::ParticipantUnresolved { device_id, reason } =>
            "failed to resolve distributed "@ + label + " participant "@ + debug_text(device_id)
                + ": "@ + reason,
        VulkanSharingFailureModel::Failed { reason } => "failed to allocate "@ + decimal_text(
            byte_capacity as nat,
        ) + " shared bytes for distributed "@ + label + ": "@ + reason,
    }
}

/// What becomes of an answer of devices that were asked to share a buffer.
pub open spec fn answered_sharing(
    owner_device_id: Seq<char>,
    device_ids: Seq<Seq<char>>,
    byte_capacity: usize,
    label: Seq<char>,
    reply: SharingReply,
) -> Result<VulkanDistributedSharedBufferAllocationModel, Seq<char>> {
    match reply {
        Ok(shared) => shared_outcome(owner_device_id, device_ids, label, shared.deep_view()),
        Err(failure) => Err(
            sharing_text(owner_device_id, byte_capacity, label, failure.deep_view()),
        ),
    }
}

/// The answer holds at least the owner's view of the buffer.
pub open spec fn holds_owner(reply: SharingReply) -> bool {
    reply is Ok ==> reply->Ok_0.buffers.len() > 0
}

/// Takes the answer of devices that were asked to share a buffer.
pub fn take_sharing_reply(
    owner_device_id: &String,
    device_ids: &Vec<String>,
    byte_capacity: usize,
    label: &str,
    reply: SharingReply,
) -> (outcome: Result<
    VulkanDistributedSharedBufferAllocation,
    VulkanDistributedActivationBufferError,
>)
    requires
        holds_owner(reply),
    ensures
        buffers_agree(
            outcome,
            answered_sharing(
                owner_device_id@,
                device_ids.deep_view(),
                byte_capacity,
                label@,
                reply,
            ),
        ),
{
    match reply {
        Ok(shared) => shared_device_buffers(owner_device_id, device_ids, label, shared),
        Err(failure) => match failure {
            VulkanSharingFailure::OwnerUnresolved { reason } => fault(
                join6(
                    "failed to resolve distributed ",
                    label,
                    " owner ",
                    quoted(owner_device_id.as_str()).as_str(),
                    ": ",
                    reason.as_str(),
                ),
            ),
            VulkanSharingFailure::ParticipantUnresolved { device_id, reason } => fault(
                join6(
                    "failed to resolve distributed ",
                    label,
                    " participant ",
                    quoted(device_id.as_str()).as_str(),
                    ": ",
                    reason.as_str(),
                ),
            ),
            VulkanSharingFailure::Failed { reason } => fault(
                join6(
                    "failed to allocate ",
                    decimal(byte_capacity).as_str(),
                    " shared bytes for distributed ",
                    label,
                    ": ",
                    reason.as_str(),
                ),
            ),
        },
    }
}

/// What devices are asked to share a buffer for: an activation or a reduction of a plan.
#[derive(Clone, Copy, Debug, PartialEq, Eq, Structural)]
pub enum VulkanSharingTarget {
    Activation { index: usize },
    Reduction { index: usize },
}

/// Devices that may be asked to share a buffer gave an answer and left the devices so.
pub open spec fn sharing_gave<
    D,
    S: Fn(
        D,
        VulkanSharingTarget,
        &String,
        &Vec<String>,
        usize,
        VulkanSharedResidentBufferRoute,
    ) -> (D, SharingReply),
>(
    share: S,
    from: D,
    target: VulkanSharingTarget,
    owner_device_id: Seq<char>,
    device_ids: Seq<Seq<char>>,
    byte_capacity: int,
    route: VulkanSharedResidentBufferRoute,
    to: D,
    reply: SharingReply,
) -> bool {
    exists|owner: &String, peers: &Vec<String>, bytes: usize|
        owner@ == owner_device_id && peers.deep_view() == peers_of(owner_device_id, device_ids)
            && bytes == byte_capacity && call_requires(
            share,
            (from, target, owner, peers, bytes, route),
        ) && #[trigger] call_ensures(
            share,
            (from, target, owner, peers, bytes, route),
            (to, reply),
        )
}

/// Devices may be asked to share a buffer.
pub open spec fn sharing_can_be_asked<
    D,
    S: Fn(
        D,
        VulkanSharingTarget,
        &String,
        &Vec<String>,
        usize,
        VulkanSharedResidentBufferRoute,
    ) -> (D, SharingReply),
>(
    share: S,
    at: D,
    target: VulkanSharingTarget,
    owner_device_id: Seq<char>,
    device_ids: Seq<Seq<char>>,
    byte_capacity: int,
    route: VulkanSharedResidentBufferRoute,
) -> bool {
    forall|owner: &String, peers: &Vec<String>, bytes: usize|
        owner@ == owner_device_id && peers.deep_view() == peers_of(owner_device_id, device_ids)
            && bytes == byte_capacity ==> #[trigger] call_requires(
            share,
            (at, target, owner, peers, bytes, route),
        )
}

/// Devices that share a buffer answer with one view of it for the owner and one for each
/// peer.
pub open spec fn shares_with_all<
    D,
    S: Fn(
        D,
        VulkanSharingTarget,
        &String,
        &Vec<String>,
        usize,
        VulkanSharedResidentBufferRoute,
    ) -> (D, SharingReply),
>(share: S) -> bool {
    forall|
        from: D,
        target: VulkanSharingTarget,
        owner: &String,
        peers: &Vec<String>,
        bytes: usize,
        route: VulkanSharedResidentBufferRoute,
        to: D,
        reply: SharingReply,
    |
        call_requires(share, (from, target, owner, peers, bytes, route)) && #[trigger]
            call_ensures(share, (from, target, owner, peers, bytes, route), (to, reply))
            && reply is Ok ==> reply->Ok_0.buffers.len() == peers.len() + 1
}

/// The answer of the devices leads to the outcome.
pub open spec fn sharing_leads_to<
    D,
    S: Fn(
        D,
        VulkanSharingTarget,
        &String,
        &Vec<String>,
        usize,
        VulkanSharedResidentBufferRoute,
    ) -> (D, SharingReply),
>(
    share: S,
    target: VulkanSharingTarget,
    owner_device_id: Seq<char>,
    device_ids: Seq<Seq<char>>,
    byte_capacity: usize,
    route: VulkanSharedResidentBufferRoute,
    label: Seq<char>,
    outcome: Result<
        VulkanDistributedSharedBufferAllocation,
        VulkanDistributedActivationBufferError,
    >,
    reply: SharingReply,
    from: D,
    to: D,
) -> bool {
    &&& sharing_gave(
        share,
        from,
        target,
        owner_device_id,
        device_ids,
        byte_capacity as int,
        route,
        to,
        reply,
    )
    &&& buffers_agree(
        outcome,
        answered_sharing(owner_device_id, device_ids, byte_capacity, label, reply),
    )
}

/// Some answer that the devices can give leads to the outcome.
pub open spec fn sharing_can_lead_to<
    D,
    S: Fn(
        D,
        VulkanSharingTarget,
        &String,
        &Vec<String>,
        usize,
        VulkanSharedResidentBufferRoute,
    ) -> (D, SharingReply),
>(
    share: S,
    target: VulkanSharingTarget,
    owner_device_id: Seq<char>,
    device_ids: Seq<Seq<char>>,
    byte_capacity: usize,
    route: VulkanSharedResidentBufferRoute,
    label: Seq<char>,
    outcome: Result<
        VulkanDistributedSharedBufferAllocation,
        VulkanDistributedActivationBufferError,
    >,
    from: D,
    to: D,
) -> bool {
    exists|reply: SharingReply| #[trigger]
        sharing_leads_to(
            share,
            target,
            owner_device_id,
            device_ids,
            byte_capacity,
            route,
            label,
            outcome,
            reply,
            from,
            to,
        )
}

/// Asks the devices of a buffer to share it.
pub fn allocate_distributed_shared_buffer<
    D,
    S: Fn(
        D,
        VulkanSharingTarget,
        &String,
        &Vec<String>,
        usize,
        VulkanSharedResidentBufferRoute,
    ) -> (D, SharingReply),
>(
    target: VulkanSharingTarget,
    owner_device_id: &String,
    device_ids: &Vec<String>,
    byte_capacity: usize,
    route: VulkanSharedResidentBufferRoute,
    label: &str,
    devices: D,
    share: &S,
) -> (result: (
    Result<VulkanDistributedSharedBufferAllocation, VulkanDistributedActivationBufferError>,
    D,
))
    requires
        sharing_can_be_asked(
            *share,
            devices,
            target,
            owner_device_id@,
            device_ids.deep_view(),
            byte_capacity as int,
            route,
        ),
        shares_with_all(*share),
    ensures
        sharing_can_lead_to(
            *share,
            target,
            owner_device_id@,
            device_ids.deep_view(),
            byte_capacity,
            route,
            label@,
            result.0,
            devices,
            result.1,
        ),
{
    let ghost from = devices;
    let (allocated, left, reply) = ask_to_share(
        target,
        owner_device_id,
        device_ids,
        byte_capacity,
        route,
        label,
        devices,
        share,
    );
    assert(sharing_leads_to(
        *share,
        target,
        owner_device_id@,
        device_ids.deep_view(),
        byte_capacity,
        route,
        label@,
        allocated,
        reply@,
        from,
        left,
    ));
    (allocated, left)
}

/// Asks the devices of a buffer to share it; the last result is their answer.
fn ask_to_share<
    D,
    S: Fn(
        D,
        VulkanSharingTarget,
        &String,
        &Vec<String>,
        usize,
        VulkanSharedResidentBufferRoute,
    ) -> (D, SharingReply),
>(
    target: VulkanSharingTarget,
    owner_device_id: &String,
    device_ids: &Vec<String>,
    byte_capacity: usize,
    route: VulkanSharedResidentBufferRoute,
    label: &str,
    devices: D,
    share: &S,
) -> (result: (
    Result<VulkanDistributedSharedBufferAllocation, VulkanDistributedActivationBufferError>,
    D,
    Ghost<SharingReply>,
))
    requires
        sharing_can_be_asked(
            *share,
            devices,
            target,
            owner_device_id@,
            device_ids.deep_view(),
            byte_capacity as int,
            route,
        ),
        shares_with_all(*share),
    ensures
        sharing_leads_to(
            *share,
            target,
            owner_device_id@,
            device_ids.deep_view(),
            byte_capacity,
            route,
            label@,
            result.0,
            result.2@,
            devices,
            result.1,
        ),
{
    let ghost from = devices;
    let peers = list_peers(owner_device_id, device_ids);
    let (left, reply) = share(devices, target, owner_device_id, &peers, byte_capacity, route);
    let ghost given = reply;
    assert(call_ensures(
        *share,
        (from, target, owner_device_id, &peers, byte_capacity, route),
        (left, given),
    ));
    assert(sharing_gave(
        *share,
        from,
        target,
        owner_device_id@,
        device_ids.deep_view(),
        byte_capacity as int,
        route,
        left,
        given,
    ));
    (
        take_sharing_reply(owner_device_id, device_ids, byte_capacity, label, reply),
        left,
        Ghost(given),
    )
}

/// The tally with one more buffer, or the text of the error.
pub open spec fn tallied(
    tally: SharedTally,
    imports: nat,
    bytes: usize,
    kind: Seq<char>,
) -> Result<SharedTally, Seq<char>> {
    if tally.imports + imports > usize::MAX {
        Err("distributed "@ + kind + " import count overflowed"@)
    } else if tally.bytes + bytes > usize::MAX {
        Err("distributed "@ + kind + " byte capacity overflowed"@)
    } else {
        Ok(
            SharedTally {
                imports: (tally.imports + imports) as usize,
                bytes: (tally.bytes + bytes) as usize,
            },
        )
    }
}

fn add_to_tally(tally: SharedTally, imports: usize, bytes: usize, kind: &str) -> (outcome: Result<
    SharedTally,
    VulkanDistributedActivationBufferError,
>)
    ensures
        buffers_agree(outcome, tallied(tally, imports as nat, bytes, kind@)),
{
    match tally.imports.checked_add(imports) {
        None => fault(join3("distributed ", kind, " import count overflowed")),
        Some(imports) => match tally.bytes.checked_add(bytes) {
            None => fault(join3("distributed ", kind, " byte capacity overflowed")),
            Some(bytes) => Ok(SharedTally { imports, bytes }),
        },
    }
}

/// The label of a shared activation.
pub open spec fn sharing_label(
    planned: VulkanDistributedActivationBufferAllocationModel,
) -> Seq<char> {
    "activation "@ + planned.component_id + ".slot_"@ + decimal_text(planned.slot as nat)
}

/// The label of a reduction.
pub open spec fn reduction_label(
    planned: VulkanDistributedReductionBufferAllocationModel,
) -> Seq<char> {
    "reduction "@ + planned.component_id + "."@ + planned.node_id
}

/// A buffer whose devices are still to be chosen.
pub open spec fn deferred_sharing(
    route: VulkanSharedResidentBufferRoute,
) -> VulkanDistributedSharedBufferAllocationModel {
    VulkanDistributedSharedBufferAllocationModel {
        route,
        external_device_local_error: None,
        device_buffers: Map::empty(),
    }
}

/// The activations on their devices so far.
pub type SharedBuffersModel = (Seq<VulkanDistributedActivationBufferModel>, SharedTally);

/// Adds a shared activation: deferred where nobody was asked for it, else as the
/// devices answered.
pub open spec fn with_sharing(
    found: SharedBuffersModel,
    planned: VulkanDistributedActivationBufferAllocationModel,
    lane_capacity: usize,
    route: VulkanSharedResidentBufferRoute,
    reply: Option<SharingReply>,
) -> Result<SharedBuffersModel, Seq<char>> {
    let bytes = planned.byte_capacity * lane_capacity;
    if bytes > usize::MAX {
        Err("distributed "@ + sharing_label(planned) + " lane capacity overflowed"@)
    } else {
        let shared = match reply {
            None => Ok(deferred_sharing(route)),
            Some(reply) => answered_sharing(
                planned.owner_device_id,
                planned.device_ids,
                bytes as usize,
                sharing_label(planned),
                reply,
            ),
        };
        match shared {
            Err(message) => Err(message),
            Ok(shared) => match tallied(
                found.1,
                shared.device_buffers.dom().len(),
                bytes as usize,
                "activation"@,
            ) {
                Err(message) => Err(message),
                Ok(tally) => Ok(
                    (
                        found.0.push(
                            VulkanDistributedActivationBufferModel {
                                planned,
                                route: shared.route,
                                external_device_local_error: shared.external_device_local_error,
                                device_buffers: shared.device_buffers,
                            },
                        ),
                        tally,
                    ),
                ),
            },
        }
    }
}

/// Nothing is shared.
pub open spec fn nothing_shared() -> SharedBuffersModel {
    (Seq::empty(), SharedTally { imports: 0, bytes: 0 })
}

/// The activations on their devices after the first answers.
pub open spec fn shared_after(
    plan: VulkanDistributedActivationBufferPlanModel,
    lane_capacity: usize,
    replies: Seq<Option<SharingReply>>,
) -> Result<SharedBuffersModel, Seq<char>>
    decreases replies.len(),
{
    if replies.len() == 0 {
        Ok(nothing_shared())
    } else {
        match shared_after(plan, lane_capacity, replies.drop_last()) {
            Err(message) => Err(message),
            Ok(found) => with_sharing(
                found,
                plan.allocations[replies.len() - 1],
                lane_capacity,
                plan.route,
                replies.last(),
            ),
        }
    }
}

/// Nobody is asked for the buffer: its place is chosen later, or its bytes do not
/// fit.
pub open spec fn is_not_asked(
    planned: VulkanDistributedActivationBufferAllocationModel,
    lane_capacity: usize,
    defer_graph_edges: bool,
) -> bool {
    planned.byte_capacity * lane_capacity > usize::MAX || (defer_graph_edges
        && planned.storage is Edge)
}

/// What was answered for an activation, and what became of the devices: nothing where
/// nobody is asked for it.
pub open spec fn activation_gave<
    D,
    S: Fn(
        D,
        VulkanSharingTarget,
        &String,
        &Vec<String>,
        usize,
        VulkanSharedResidentBufferRoute,
    ) -> (D, SharingReply),
>(
    share: S,
    plan: VulkanDistributedActivationBufferPlanModel,
    lane_capacity: usize,
    defer_graph_edges: bool,
    index: int,
    reply: Option<SharingReply>,
    from: D,
    to: D,
) -> bool {
    if is_not_asked(plan.allocations[index], lane_capacity, defer_graph_edges) {
        reply is None && from == to
    } else {
        reply is Some && sharing_gave(
            share,
            from,
            VulkanSharingTarget::Activation { index: index as usize },
            plan.allocations[index].owner_device_id,
            plan.allocations[index].device_ids,
            plan.allocations[index].byte_capacity * lane_capacity,
            plan.route,
            to,
            reply->0,
        )
    }
}

/// The answers are those of the devices that were asked for the first activations, one
/// after the other.
pub open spec fn sharings_gave<
    D,
    S: Fn(
        D,
        VulkanSharingTarget,
        &String,
        &Vec<String>,
        usize,
        VulkanSharedResidentBufferRoute,
    ) -> (D, SharingReply),
>(
    share: S,
    plan: VulkanDistributedActivationBufferPlanModel,
    lane_capacity: usize,
    defer_graph_edges: bool,
    replies: Seq<Option<SharingReply>>,
    from: D,
    to: D,
) -> bool
    decreases replies.len(),
{
    if replies.len() == 0 {
        from == to
    } else {
        replies.len() <= plan.allocations.len() && exists|at: D| #[trigger]
            activation_gave(
                share,
                plan,
                lane_capacity,
                defer_graph_edges,
                replies.len() - 1,
                replies.last(),
                at,
                to,
            ) && sharings_gave(
                share,
                plan,
                lane_capacity,
                defer_graph_edges,
                replies.drop_last(),
                from,
                at,
            )
    }
}

/// The devices of an activation may be asked to share it, unless nobody is asked for it.
pub open spec fn activation_can_be_asked<
    D,
    S: Fn(
        D,
        VulkanSharingTarget,
        &String,
        &Vec<String>,
        usize,
        VulkanSharedResidentBufferRoute,
    ) -> (D, SharingReply),
>(
    share: S,
    plan: VulkanDistributedActivationBufferPlanModel,
    lane_capacity: usize,
    defer_graph_edges: bool,
    index: int,
    at: D,
) -> bool {
    !is_not_asked(plan.allocations[index], lane_capacity, defer_graph_edges)
        ==> sharing_can_be_asked(
        share,
        at,
        VulkanSharingTarget::Activation { index: index as usize },
        plan.allocations[index].owner_device_id,
        plan.allocations[index].device_ids,
        plan.allocations[index].byte_capacity * lane_capacity,
        plan.route,
    )
}

/// The first activations are on their devices.
pub open spec fn activations_were_shared<
    D,
    S: Fn(
        D,
        VulkanSharingTarget,
        &String,
        &Vec<String>,
        usize,
        VulkanSharedResidentBufferRoute,
    ) -> (D, SharingReply),
>(
    share: S,
    plan: VulkanDistributedActivationBufferPlanModel,
    lane_capacity: usize,
    defer_graph_edges: bool,
    replies: Seq<Option<SharingReply>>,
    from: D,
    to: D,
) -> bool {
    sharings_gave(share, plan, lane_capacity, defer_graph_edges, replies, from, to)
        && shared_after(plan, lane_capacity, replies) is Ok
}

/// Devices may be asked for the activations in turn: for each once those before it are
/// on their devices, and for none whose devices are chosen later.
pub open spec fn activations_can_be_asked<
    D,
    S: Fn(
        D,
        VulkanSharingTarget,
        &String,
        &Vec<String>,
        usize,
        VulkanSharedResidentBufferRoute,
    ) -> (D, SharingReply),
>(
    share: S,
    plan: VulkanDistributedActivationBufferPlanModel,
    lane_capacity: usize,
    defer_graph_edges: bool,
    from: D,
) -> bool {
    forall|replies: Seq<Option<SharingReply>>, at: D| #[trigger]
        activations_were_shared(share, plan, lane_capacity, defer_graph_edges, replies, from, at)
            && replies.len() < plan.allocations.len() ==> activation_can_be_asked(
            share,
            plan,
            lane_capacity,
            defer_graph_edges,
            replies.len() as int,
            at,
        )
}

fn label_sharing(planned: &VulkanDistributedActivationBufferAllocation) -> (label: String)
    ensures
        label@ == sharing_label(planned.deep_view()),
{
    join4(
        "activation ",
        planned.component_id.as_str(),
        ".slot_",
        decimal(planned.slot).as_str(),
    )
}

fn label_reduction(planned: &VulkanDistributedReductionBufferAllocation) -> (label: String)
    ensures
        label@ == reduction_label(planned.deep_view()),
{
    join4("reduction ", planned.component_id.as_str(), ".", planned.node_id.as_str())
}

fn is_edge(storage: &VulkanDistributedActivationStorage) -> (result: bool)
    ensures
        result == (storage.deep_view() is Edge),
{
    match storage {
        VulkanDistributedActivationStorage::Edge { .. } => true,
        _ => false,
    }
}

/// The activations on their devices.
struct SharedProgress {
    buffers: Vec<VulkanDistributedActivationBuffer>,
    tally: SharedTally,
}

impl SharedProgress {
    spec fn model(self) -> SharedBuffersModel {
        (self.buffers.deep_view(), self.tally)
    }
}

fn add_shared_activation<
    D,
    S: Fn(
        D,
        VulkanSharingTarget,
        &String,
        &Vec<String>,
        usize,
        VulkanSharedResidentBufferRoute,
    ) -> (D, SharingReply),
>(
    progress: &mut SharedProgress,
    plan: &VulkanDistributedActivationBufferPlan,
    index: usize,
    lane_capacity: usize,
    defer_graph_edges: bool,
    devices: D,
    share: &S,
) -> (result: (
    Result<(), VulkanDistributedActivationBufferError>,
    D,
    Ghost<Option<SharingReply>>,
))
    requires
        index < plan.allocations.len(),
        shares_with_all(*share),
        activation_can_be_asked(
            *share,
            plan.deep_view(),
            lane_capacity,
            defer_graph_edges,
            index as int,
            devices,
        ),
    ensures
        activation_gave(
            *share,
            plan.deep_view(),
            lane_capacity,
            defer_graph_edges,
            index as int,
            result.2@,
            devices,
            result.1,
        ),
        match result.0 {
            Ok(_) => with_sharing(
                old(progress).model(),
                plan.deep_view().allocations[index as int],
                lane_capacity,
                plan.route,
                result.2@,
            ) == Ok::<SharedBuffersModel, Seq<char>>(final(progress).model()),
            Err(error) => with_sharing(
                old(progress).model(),
                plan.deep_view().allocations[index as int],
                lane_capacity,
                plan.route,
                result.2@,
            ) == Err::<SharedBuffersModel, Seq<char>>(error.0@),
        },
{
    let mut current = devices;
    let planned = &plan.allocations[index];
    assert(plan.deep_view().allocations[index as int] == planned.deep_view());
    let label = label_sharing(planned);
    let byte_capacity: usize = match planned.byte_capacity.checked_mul(lane_capacity) {
        None => {
            return (
                fault(join3("distributed ", label.as_str(), " lane capacity overflowed")),
                current,
                Ghost(None),
            );
        },
        Some(bytes) => bytes,
    };
    let ghost mut given: Option<SharingReply> = None;
    let shared = if defer_graph_edges && is_edge(&planned.storage) {
        VulkanDistributedSharedBufferAllocation {
            route: plan.route,
            external_device_local_error: None,
            device_buffers: OrderedMap::new(),
        }
    } else {
        let (outcome, left, reply) = ask_to_share(
            VulkanSharingTarget::Activation { index },
            &planned.owner_device_id,
            &planned.device_ids,
            byte_capacity,
            plan.route,
            label.as_str(),
            current,
            share,
        );
        current = left;
        proof {
            given = Some(reply@);
        }
        match outcome {
            Err(error) => {
                return (Err(error), current, Ghost(given));
            },
            Ok(shared) => shared,
        }
    };
    let imports: usize = shared.device_buffers.len();
    match add_to_tally(progress.tally, imports, byte_capacity, "activation") {
        Err(error) => (Err(error), current, Ghost(given)),
        Ok(tally) => {
            progress.tally = tally;
            append(
                &mut progress.buffers,
                VulkanDistributedActivationBuffer {
                    planned: planned.duplicate(),
                    route: shared.route,
                    external_device_local_error: shared.external_device_local_error,
                    device_buffers: shared.device_buffers,
                },
            );
            (Ok(()), current, Ghost(given))
        },
    }
}

/// The reductions on their devices so far.
pub type ReducedBuffersModel = (Seq<VulkanDistributedReductionBufferModel>, SharedTally);

/// Adds a reduction as its devices answered.
pub open spec fn with_shared_reduction(
    found: ReducedBuffersModel,
    planned: VulkanDistributedReductionBufferAllocationModel,
    lane_capacity: usize,
    reply: Option<SharingReply>,
) -> Result<ReducedBuffersModel, Seq<char>> {
    let bytes = planned.byte_capacity * lane_capacity;
    if bytes > usize::MAX || reply is None {
        Err("distributed "@ + reduction_label(planned) + " lane capacity overflowed"@)
    } else {
        match answered_sharing(
            planned.owner_device_id,
            planned.device_ids,
            bytes as usize,
            reduction_label(planned),
            reply->0,
        ) {
            Err(message) => Err(message),
            Ok(shared) => match tallied(
                found.1,
                shared.device_buffers.dom().len(),
                bytes as usize,
                "reduction"@,
            ) {
                Err(message) => Err(message),
                Ok(tally) => Ok(
                    (
                        found.0.push(
                            VulkanDistributedReductionBufferModel {
                                planned,
                                route: shared.route,
                                external_device_local_error: shared.external_device_local_error,
                                device_buffers: shared.device_buffers,
                            },
                        ),
                        tally,
                    ),
                ),
            },
        }
    }
}

/// The reductions on their devices after the first answers.
pub open spec fn reduced_after(
    plan: VulkanDistributedActivationBufferPlanModel,
    lane_capacity: usize,
    tally: SharedTally,
    replies: Seq<Option<SharingReply>>,
) -> Result<ReducedBuffersModel, Seq<char>>
    decreases replies.len(),
{
    if replies.len() == 0 {
        Ok((Seq::empty(), tally))
    } else {
        match reduced_after(plan, lane_capacity, tally, replies.drop_last()) {
            Err(message) => Err(message),
            Ok(found) => with_shared_reduction(
                found,
                plan.reduction_allocations[replies.len() - 1],
                lane_capacity,
                replies.last(),
            ),
        }
    }
}

/// What was answered for a reduction, and what became of the devices: nothing where its
/// bytes do not fit.
pub open spec fn reduction_gave<
    D,
    S: Fn(
        D,
        VulkanSharingTarget,
        &String,
        &Vec<String>,
        usize,
        VulkanSharedResidentBufferRoute,
    ) -> (D, SharingReply),
>(
    share: S,
    plan: VulkanDistributedActivationBufferPlanModel,
    lane_capacity: usize,
    index: int,
    reply: Option<SharingReply>,
    from: D,
    to: D,
) -> bool {
    if plan.reduction_allocations[index].byte_capacity * lane_capacity > usize::MAX {
        reply is None && from == to
    } else {
        reply is Some && sharing_gave(
            share,
            from,
            VulkanSharingTarget::Reduction { index: index as usize },
            plan.reduction_allocations[index].owner_device_id,
            plan.reduction_allocations[index].device_ids,
            plan.reduction_allocations[index].byte_capacity * lane_capacity,
            plan.route,
            to,
            reply->0,
        )
    }
}

/// The answers are those of the devices that were asked for the first reductions, one
/// after the other.
pub open spec fn reductions_gave<
    D,
    S: Fn(
        D,
        VulkanSharingTarget,
        &String,
        &Vec<String>,
        usize,
        VulkanSharedResidentBufferRoute,
    ) -> (D, SharingReply),
>(
    share: S,
    plan: VulkanDistributedActivationBufferPlanModel,
    lane_capacity: usize,
    replies: Seq<Option<SharingReply>>,
    from: D,
    to: D,
) -> bool
    decreases replies.len(),
{
    if replies.len() == 0 {
        from == to
    } else {
        replies.len() <= plan.reduction_allocations.len() && exists|at: D| #[trigger]
            reduction_gave(
                share,
                plan,
                lane_capacity,
                replies.len() - 1,
                replies.last(),
                at,
                to,
            ) && reductions_gave(share, plan, lane_capacity, replies.drop_last(), from, at)
    }
}

/// The devices of a reduction may be asked to share it, where its bytes fit.
pub open spec fn reduction_can_be_asked<
    D,
    S: Fn(
        D,
        VulkanSharingTarget,
        &String,
        &Vec<String>,
        usize,
        VulkanSharedResidentBufferRoute,
    ) -> (D, SharingReply),
>(
    share: S,
    plan: VulkanDistributedActivationBufferPlanModel,
    lane_capacity: usize,
    index: int,
    at: D,
) -> bool {
    plan.reduction_allocations[index].byte_capacity * lane_capacity <= usize::MAX
        ==> sharing_can_be_asked(
        share,
        at,
        VulkanSharingTarget::Reduction { index: index as usize },
        plan.reduction_allocations[index].owner_device_id,
        plan.reduction_allocations[index].device_ids,
        plan.reduction_allocations[index].byte_capacity * lane_capacity,
        plan.route,
    )
}

/// The first reductions are on their devices.
pub open spec fn reductions_were_shared<
    D,
    S: Fn(
        D,
        VulkanSharingTarget,
        &String,
        &Vec<String>,
        usize,
        VulkanSharedResidentBufferRoute,
    ) -> (D, SharingReply),
>(
    share: S,
    plan: VulkanDistributedActivationBufferPlanModel,
    lane_capacity: usize,
    tally: SharedTally,
    replies: Seq<Option<SharingReply>>,
    from: D,
    to: D,
) -> bool {
    reductions_gave(share, plan, lane_capacity, replies, from, to) && reduced_after(
        plan,
        lane_capacity,
        tally,
        replies,
    ) is Ok
}

/// Devices may be asked for the reductions in turn: for each once those before it are on
/// their devices.
pub open spec fn reductions_can_be_asked<
    D,
    S: Fn(
        D,
        VulkanSharingTarget,
        &String,
        &Vec<String>,
        usize,
        VulkanSharedResidentBufferRoute,
    ) -> (D, SharingReply),
>(
    share: S,
    plan: VulkanDistributedActivationBufferPlanModel,
    lane_capacity: usize,
    tally: SharedTally,
    from: D,
) -> bool {
    forall|replies: Seq<Option<SharingReply>>, at: D| #[trigger]
        reductions_were_shared(share, plan, lane_capacity, tally, replies, from, at)
            && replies.len() < plan.reduction_allocations.len() ==> reduction_can_be_asked(
            share,
            plan,
            lane_capacity,
            replies.len() as int,
            at,
        )
}

/// The reductions on their devices.
struct ReducedProgress {
    buffers: Vec<VulkanDistributedReductionBuffer>,
    tally: SharedTally,
}

impl ReducedProgress {
    spec fn model(self) -> ReducedBuffersModel {
        (self.buffers.deep_view(), self.tally)
    }
}

fn add_shared_reduction<
    D,
    S: Fn(
        D,
        VulkanSharingTarget,
        &String,
        &Vec<String>,
        usize,
        VulkanSharedResidentBufferRoute,
    ) -> (D, SharingReply),
>(
    progress: &mut ReducedProgress,
    plan: &VulkanDistributedActivationBufferPlan,
    index: usize,
    lane_capacity: usize,
    devices: D,
    share: &S,
) -> (result: (
    Result<(), VulkanDistributedActivationBufferError>,
    D,
    Ghost<Option<SharingReply>>,
))
    requires
        index < plan.reduction_allocations.len(),
        shares_with_all(*share),
        reduction_can_be_asked(*share, plan.deep_view(), lane_capacity, index as int, devices),
    ensures
        reduction_gave(
            *share,
            plan.deep_view(),
            lane_capacity,
            index as int,
            result.2@,
            devices,
            result.1,
        ),
        match result.0 {
            Ok(_) => with_shared_reduction(
                old(progress).model(),
                plan.deep_view().reduction_allocations[index as int],
                lane_capacity,
                result.2@,
            ) == Ok::<ReducedBuffersModel, Seq<char>>(final(progress).model()),
            Err(error) => with_shared_reduction(
                old(progress).model(),
                plan.deep_view().reduction_allocations[index as int],
                lane_capacity,
                result.2@,
            ) == Err::<ReducedBuffersModel, Seq<char>>(error.0@),
        },
{
    let planned = &plan.reduction_allocations[index];
    assert(plan.deep_view().reduction_allocations[index as int] == planned.deep_view());
    let label = label_reduction(planned);
    let byte_capacity: usize = match planned.byte_capacity.checked_mul(lane_capacity) {
        None => {
            return (
                fault(join3("distributed ", label.as_str(), " lane capacity overflowed")),
                devices,
                Ghost(None),
            );
        },
        Some(bytes) => bytes,
    };
    let (outcome, left, reply) = ask_to_share(
        VulkanSharingTarget::Reduction { index },
        &planned.owner_device_id,
        &planned.device_ids,
        byte_capacity,
        plan.route,
        label.as_str(),
        devices,
        share,
    );
    let ghost given = Some(reply@);
    let shared = match outcome {
        Err(error) => {
            return (Err(error), left, Ghost(given));
        },
        Ok(shared) => shared,
    };
    let imports: usize = shared.device_buffers.len();
    match add_to_tally(progress.tally, imports, byte_capacity, "reduction") {
        Err(error) => (Err(error), left, Ghost(given)),
        Ok(tally) => {
            progress.tally = tally;
            append(
                &mut progress.buffers,
                VulkanDistributedReductionBuffer {
                    planned: planned.duplicate(),
                    route: shared.route,
                    external_device_local_error: shared.external_device_local_error,
                    device_buffers: shared.device_buffers,
                },
            );
            (Ok(()), left, Ghost(given))
        },
    }
}

/// What a device answers when it is asked for a private buffer.
pub type PrivateReply = Result<VulkanResidentBuffer, VulkanDeviceFailure>;

/// The buffers of a private intermediate so far, and the bytes of all private ones.
pub type PrivateDevicesModel = (Map<Seq<char>, VulkanResidentBuffer>, usize);

/// Adds the private buffer of a device as the device answered.
pub open spec fn with_private_device(
    found: PrivateDevicesModel,
    signal_id: Seq<char>,
    device: VulkanDistributedPrivateIntermediateDeviceAllocationModel,
    lane_capacity: usize,
    reply: Option<PrivateReply>,
) -> Result<PrivateDevicesModel, Seq<char>> {
    let bytes = device.byte_capacity * lane_capacity;
    if bytes > usize::MAX || reply is None {
        Err("distributed private intermediate "@ + signal_id + " lane capacity overflowed"@)
    } else {
        match reply->0 {
            Err(failure) => Err(
                match failure.deep_view() {
                    VulkanDeviceFailureModel::Unresolved { reason } =>
                        "failed to resolve private intermediate "@ + signal_id + " device "@
                            + debug_text(device.device_id) + ": "@ + reason,
                    VulkanDeviceFailureModel::Failed { reason } => "failed to allocate "@
                        + decimal_text(bytes as nat) + " private intermediate bytes for "@
                        + signal_id + " on "@ + debug_text(device.device_id) + ": "@ + reason,
                },
            ),
            Ok(buffer) => if found.0.contains_key(device.device_id) {
                Err(
                    "private intermediate "@ + signal_id + " repeats device "@ + debug_text(
                        device.device_id,
                    ),
                )
            } else if found.1 + bytes > usize::MAX {
                Err("distributed private intermediate allocation overflowed"@)
            } else {
                Ok((found.0.insert(device.device_id, buffer), (found.1 + bytes) as usize))
            },
        }
    }
}

/// The buffers of a private intermediate after the first answers.
pub open spec fn private_devices_after(
    planned: VulkanDistributedPrivateIntermediateBufferAllocationModel,
    lane_capacity: usize,
    bytes: usize,
    replies: Seq<Option<PrivateReply>>,
) -> Result<PrivateDevicesModel, Seq<char>>
    decreases replies.len(),
{
    if replies.len() == 0 {
        Ok((Map::empty(), bytes))
    } else {
        match private_devices_after(planned, lane_capacity, bytes, replies.drop_last()) {
            Err(message) => Err(message),
            Ok(found) => with_private_device(
                found,
                planned.signal_id,
                planned.devices[replies.len() - 1],
                lane_capacity,
                replies.last(),
            ),
        }
    }
}

/// The private intermediates on their devices so far, and their bytes.
pub type PrivateBuffersModel = (Seq<VulkanDistributedPrivateIntermediateBufferModel>, usize);

/// The private intermediates on their devices after the first answers.
pub open spec fn privates_after(
    plan: VulkanDistributedActivationBufferPlanModel,
    lane_capacity: usize,
    replies: Seq<Seq<Option<PrivateReply>>>,
) -> Result<PrivateBuffersModel, Seq<char>>
    decreases replies.len(),
{
    if replies.len() == 0 {
        Ok((Seq::empty(), 0))
    } else {
        let planned = plan.private_intermediate_allocations[replies.len() - 1];
        match privates_after(plan, lane_capacity, replies.drop_last()) {
            Err(message) => Err(message),
            Ok(found) => match private_devices_after(
                planned,
                lane_capacity,
                found.1,
                replies.last(),
            ) {
                Err(message) => Err(message),
                Ok(devices) => Ok(
                    (
                        found.0.push(
                            VulkanDistributedPrivateIntermediateBufferModel {
                                planned,
                                device_buffers: devices.0,
                            },
                        ),
                        devices.1,
                    ),
                ),
            },
        }
    }
}

/// A device that was asked for the private buffer of an intermediate at a place gave an
/// answer and left the devices so.
pub open spec fn private_gave<
    D,
    C: Fn(D, usize, usize, &String, usize) -> (D, PrivateReply),
>(
    create: C,
    from: D,
    allocation: usize,
    place: usize,
    device: VulkanDistributedPrivateIntermediateDeviceAllocationModel,
    lane_capacity: usize,
    to: D,
    reply: PrivateReply,
) -> bool {
    exists|device_id: &String, bytes: usize|
        device_id@ == device.device_id && bytes == device.byte_capacity * lane_capacity
            && #[trigger] call_ensures(
            create,
            (from, allocation, place, device_id, bytes),
            (to, reply),
        )
}

/// What a device answered for an intermediate, and what became of the devices: nothing
/// where its bytes do not fit.
pub open spec fn private_device_gave<
    D,
    C: Fn(D, usize, usize, &String, usize) -> (D, PrivateReply),
>(
    create: C,
    allocation: usize,
    planned: VulkanDistributedPrivateIntermediateBufferAllocationModel,
    lane_capacity: usize,
    place: int,
    reply: Option<PrivateReply>,
    from: D,
    to: D,
) -> bool {
    if planned.devices[place].byte_capacity * lane_capacity > usize::MAX {
        reply is None && from == to
    } else {
        reply is Some && private_gave(
            create,
            from,
            allocation,
            place as usize,
            planned.devices[place],
            lane_capacity,
            to,
            reply->0,
        )
    }
}

/// The answers are those of the devices that were asked for an intermediate, one after
/// the other.
pub open spec fn private_devices_gave<
    D,
    C: Fn(D, usize, usize, &String, usize) -> (D, PrivateReply),
>(
    create: C,
    allocation: usize,
    planned: VulkanDistributedPrivateIntermediateBufferAllocationModel,
    lane_capacity: usize,
    replies: Seq<Option<PrivateReply>>,
    from: D,
    to: D,
) -> bool
    decreases replies.len(),
{
    if replies.len() == 0 {
        from == to
    } else {
        replies.len() <= planned.devices.len() && exists|at: D| #[trigger]
            private_device_gave(
                create,
                allocation,
                planned,
                lane_capacity,
                replies.len() - 1,
                replies.last(),
                at,
                to,
            ) && private_devices_gave(
                create,
                allocation,
                planned,
                lane_capacity,
                replies.drop_last(),
                from,
                at,
            )
    }
}

/// The answers are those of the devices that were asked for the first intermediates, one
/// after the other.
pub open spec fn privates_gave<
    D,
    C: Fn(D, usize, usize, &String, usize) -> (D, PrivateReply),
>(
    create: C,
    plan: VulkanDistributedActivationBufferPlanModel,
    lane_capacity: usize,
    replies: Seq<Seq<Option<PrivateReply>>>,
    from: D,
    to: D,
) -> bool
    decreases replies.len(),
{
    if replies.len() == 0 {
        from == to
    } else {
        replies.len() <= plan.private_intermediate_allocations.len() && exists|at: D| #[trigger]
            private_devices_gave(
                create,
                (replies.len() - 1) as usize,
                plan.private_intermediate_allocations[replies.len() - 1],
                lane_capacity,
                replies.last(),
                at,
                to,
            ) && privates_gave(create, plan, lane_capacity, replies.drop_last(), from, at)
    }
}

/// All devices of an intermediate answered, unless one failed.
pub open spec fn privates_are_whole(
    plan: VulkanDistributedActivationBufferPlanModel,
    lane_capacity: usize,
    replies: Seq<Seq<Option<PrivateReply>>>,
) -> bool {
    forall|i: int|
        0 <= i < replies.len() && (i < replies.len() - 1 || privates_after(
            plan,
            lane_capacity,
            replies,
        ) is Ok) ==> (#[trigger] replies[i]).len()
            == plan.private_intermediate_allocations[i].devices.len()
}

/// A device may be asked for the private buffer of an intermediate at a place, where its
/// bytes fit.
pub open spec fn private_can_be_asked<
    D,
    C: Fn(D, usize, usize, &String, usize) -> (D, PrivateReply),
>(
    create: C,
    at: D,
    allocation: usize,
    place: usize,
    device: VulkanDistributedPrivateIntermediateDeviceAllocationModel,
    lane_capacity: usize,
) -> bool {
    forall|device_id: &String, bytes: usize|
        device_id@ == device.device_id && bytes == device.byte_capacity * lane_capacity
            ==> #[trigger] call_requires(create, (at, allocation, place, device_id, bytes))
}

/// The first devices gave their buffers of an intermediate.
pub open spec fn private_devices_were_given<
    D,
    C: Fn(D, usize, usize, &String, usize) -> (D, PrivateReply),
>(
    create: C,
    allocation: usize,
    planned: VulkanDistributedPrivateIntermediateBufferAllocationModel,
    lane_capacity: usize,
    bytes: usize,
    replies: Seq<Option<PrivateReply>>,
    from: D,
    to: D,
) -> bool {
    private_devices_gave(create, allocation, planned, lane_capacity, replies, from, to)
        && private_devices_after(planned, lane_capacity, bytes, replies) is Ok
}

/// The devices of an intermediate may be asked for their buffers in turn.
pub open spec fn private_devices_can_be_asked<
    D,
    C: Fn(D, usize, usize, &String, usize) -> (D, PrivateReply),
>(
    create: C,
    allocation: usize,
    planned: VulkanDistributedPrivateIntermediateBufferAllocationModel,
    lane_capacity: usize,
    bytes: usize,
    from: D,
) -> bool {
    forall|replies: Seq<Option<PrivateReply>>, at: D| #[trigger]
        private_devices_were_given(
            create,
            allocation,
            planned,
            lane_capacity,
            bytes,
            replies,
            from,
            at,
        ) && replies.len() < planned.devices.len() ==> private_can_be_asked(
            create,
            at,
            allocation,
            replies.len() as usize,
            planned.devices[replies.len() as int],
            lane_capacity,
        )
}

/// The first intermediates are on their devices.
pub open spec fn privates_were_given<
    D,
    C: Fn(D, usize, usize, &String, usize) -> (D, PrivateReply),
>(
    create: C,
    plan: VulkanDistributedActivationBufferPlanModel,
    lane_capacity: usize,
    replies: Seq<Seq<Option<PrivateReply>>>,
    from: D,
    to: D,
) -> bool {
    &&& privates_gave(create, plan, lane_capacity, replies, from, to)
    &&& privates_are_whole(plan, lane_capacity, replies)
    &&& privates_after(plan, lane_capacity, replies) is Ok
}

/// Devices may be asked for the intermediates in turn: for each once those before it are
/// on their devices.
pub open spec fn privates_can_be_asked<
    D,
    C: Fn(D, usize, usize, &String, usize) -> (D, PrivateReply),
>(
    create: C,
    plan: VulkanDistributedActivationBufferPlanModel,
    lane_capacity: usize,
    from: D,
) -> bool {
    forall|replies: Seq<Seq<Option<PrivateReply>>>, at: D| #[trigger]
        privates_were_given(create, plan, lane_capacity, replies, from, at) && replies.len()
            < plan.private_intermediate_allocations.len() ==> private_devices_can_be_asked(
            create,
            replies.len() as usize,
            plan.private_intermediate_allocations[replies.len() as int],
            lane_capacity,
            privates_after(plan, lane_capacity, replies)->Ok_0.1,
            at,
        )
}

fn private_failure(
    signal_id: &String,
    device: &VulkanDistributedPrivateIntermediateDeviceAllocation,
    byte_capacity: usize,
    failure: VulkanDeviceFailure,
) -> (text: String)
    ensures
        text@ == (match failure.deep_view() {
            VulkanDeviceFailureModel::Unresolved { reason } =>
                "failed to resolve private intermediate "@ + signal_id@ + " device "@ + debug_text(
                    device.device_id@,
                ) + ": "@ + reason,
            VulkanDeviceFailureModel::Failed { reason } => "failed to allocate "@ + decimal_text(
                byte_capacity as nat,
            ) + " private intermediate bytes for "@ + signal_id@ + " on "@ + debug_text(
                device.device_id@,
            ) + ": "@ + reason,
        }),
{
    match failure {
        VulkanDeviceFailure::Unresolved { reason } => join6(
            "failed to resolve private intermediate ",
            signal_id.as_str(),
            " device ",
            quoted(device.device_id.as_str()).as_str(),
            ": ",
            reason.as_str(),
        ),
        VulkanDeviceFailure::Failed { reason } => join8(
            "failed to allocate ",
            decimal(byte_capacity).as_str(),
            " private intermediate bytes for ",
            signal_id.as_str(),
            " on ",
            quoted(device.device_id.as_str()).as_str(),
            ": ",
            reason.as_str(),
        ),
    }
}

/// The buffers of a private intermediate.
struct PrivateProgress {
    device_buffers: OrderedMap<String, VulkanResidentBuffer>,
    bytes: usize,
}

impl PrivateProgress {
    spec fn model(self) -> PrivateDevicesModel {
        (self.device_buffers.deep_view(), self.bytes)
    }
}

fn add_private_device<
    D,
    C: Fn(D, usize, usize, &String, usize) -> (D, PrivateReply),
>(
    progress: &mut PrivateProgress,
    allocation: usize,
    place: usize,
    planned: &VulkanDistributedPrivateIntermediateBufferAllocation,
    lane_capacity: usize,
    devices: D,
    create: &C,
) -> (result: (
    Result<(), VulkanDistributedActivationBufferError>,
    D,
    Ghost<Option<PrivateReply>>,
))
    requires
        place < planned.devices.len(),
        private_can_be_asked(
            *create,
            devices,
            allocation,
            place,
            planned.deep_view().devices[place as int],
            lane_capacity,
        ),
    ensures
        private_device_gave(
            *create,
            allocation,
            planned.deep_view(),
            lane_capacity,
            place as int,
            result.2@,
            devices,
            result.1,
        ),
        match result.0 {
            Ok(_) => with_private_device(
                old(progress).model(),
                planned.signal_id@,
                planned.deep_view().devices[place as int],
                lane_capacity,
                result.2@,
            ) == Ok::<PrivateDevicesModel, Seq<char>>(final(progress).model()),
            Err(error) => with_private_device(
                old(progress).model(),
                planned.signal_id@,
                planned.deep_view().devices[place as int],
                lane_capacity,
                result.2@,
            ) == Err::<PrivateDevicesModel, Seq<char>>(error.0@),
        },
{
    let signal_id = &planned.signal_id;
    let device = &planned.devices[place];
    assert(planned.deep_view().devices[place as int] == device.deep_view());
    let ghost from = devices;
    let byte_capacity: usize = match device.byte_capacity.checked_mul(lane_capacity) {
        None => {
            return (
                fault(
                    join3(
                        "distributed private intermediate ",
                        signal_id.as_str(),
                        " lane capacity overflowed",
                    ),
                ),
                devices,
                Ghost(None),
            );
        },
        Some(bytes) => bytes,
    };
    let (left, reply) = create(devices, allocation, place, &device.device_id, byte_capacity);
    let ghost given = Some(reply);
    assert(call_ensures(
        *create,
        (from, allocation, place, &device.device_id, byte_capacity),
        (left, reply),
    ));
    assert(private_gave(
        *create,
        from,
        allocation,
        place,
        device.deep_view(),
        lane_capacity,
        left,
        reply,
    ));
    match reply {
        Err(failure) => {
            let text = private_failure(signal_id, device, byte_capacity, failure);
            (fault(text), left, Ghost(given))
        },
        Ok(buffer) => {
            if progress.device_buffers.insert(device.device_id.clone(), buffer).is_some() {
                return (
                    fault(
                        join4(
                            "private intermediate ",
                            signal_id.as_str(),
                            " repeats device ",
                            quoted(device.device_id.as_str()).as_str(),
                        ),
                    ),
                    left,
                    Ghost(given),
                );
            }
            match progress.bytes.checked_add(byte_capacity) {
                None => (
                    fault("distributed private intermediate allocation overflowed".to_owned()),
                    left,
                    Ghost(given),
                ),
                Some(bytes) => {
                    progress.bytes = bytes;
                    (Ok(()), left, Ghost(given))
                },
            }
        },
    }
}

fn allocate_private<
    D,
    C: Fn(D, usize, usize, &String, usize) -> (D, PrivateReply),
>(
    allocation: usize,
    planned: &VulkanDistributedPrivateIntermediateBufferAllocation,
    lane_capacity: usize,
    bytes: usize,
    devices: D,
    create: &C,
) -> (result: (
    Result<PrivateProgress, VulkanDistributedActivationBufferError>,
    D,
    Ghost<Seq<Option<PrivateReply>>>,
))
    requires
        private_devices_can_be_asked(
            *create,
            allocation,
            planned.deep_view(),
            lane_capacity,
            bytes,
            devices,
        ),
    ensures
        private_devices_gave(
            *create,
            allocation,
            planned.deep_view(),
            lane_capacity,
            result.2@,
            devices,
            result.1,
        ),
        result.2@.len() > 0 ==> private_devices_after(
            planned.deep_view(),
            lane_capacity,
            bytes,
            result.2@.drop_last(),
        ) is Ok,
        result.0 is Ok ==> result.2@.len() == planned.devices.len(),
        match result.0 {
            Ok(progress) => private_devices_after(
                planned.deep_view(),
                lane_capacity,
                bytes,
                result.2@,
            ) == Ok::<PrivateDevicesModel, Seq<char>>(progress.model()),
            Err(error) => private_devices_after(
                planned.deep_view(),
                lane_capacity,
                bytes,
                result.2@,
            ) == Err::<PrivateDevicesModel, Seq<char>>(error.0@),
        },
{
    let ghost model = planned.deep_view();
    let ghost mut replies: Seq<Option<PrivateReply>> = Seq::empty();
    let ghost from = devices;
    let mut current = devices;
    let mut progress = PrivateProgress { device_buffers: OrderedMap::new(), bytes };
    for index in 0..planned.devices.len()
        invariant
            private_devices_can_be_asked(*create, allocation, model, lane_capacity, bytes, from),
            from == devices,
            model == planned.deep_view(),
            replies.len() == index,
            private_devices_gave(
                *create,
                allocation,
                model,
                lane_capacity,
                replies,
                from,
                current,
            ),
            private_devices_after(model, lane_capacity, bytes, replies) == Ok::<
                PrivateDevicesModel,
                Seq<char>,
            >(progress.model()),
    {
        let ghost at = current;
        assert(private_devices_were_given(
            *create,
            allocation,
            model,
            lane_capacity,
            bytes,
            replies,
            from,
            at,
        ));
        let (outcome, left, reply) = add_private_device(
            &mut progress,
            allocation,
            index,
            planned,
            lane_capacity,
            current,
            create,
        );
        current = left;
        proof {
            let next = replies.push(reply@);
            assert(next.drop_last() =~= replies);
            assert(private_device_gave(
                *create,
                allocation,
                model,
                lane_capacity,
                next.len() - 1,
                next.last(),
                at,
                current,
            ));
            assert(private_devices_gave(
                *create,
                allocation,
                model,
                lane_capacity,
                next,
                from,
                current,
            ));
            replies = next;
        }
        match outcome {
            Err(error) => {
                return (Err(error), current, Ghost(replies));
            },
            Ok(_) => {},
        }
    }
    (Ok(progress), current, Ghost(replies))
}

/// The activations of a plan on its devices after all answers, or the text of the
/// error.
pub open spec fn allocation_outcome(
    plan: VulkanDistributedActivationBufferPlanModel,
    lane_capacity: usize,
    sharings: Seq<Option<SharingReply>>,
    reductions: Seq<Option<SharingReply>>,
    privates: Seq<Seq<Option<PrivateReply>>>,
) -> Result<VulkanDistributedActivationBuffersModel, Seq<char>> {
    if lane_capacity == 0 {
        Err("distributed activation lane capacity must not be zero"@)
    } else {
        match shared_after(plan, lane_capacity, sharings) {
            Err(message) => Err(message),
            Ok(shared) => match reduced_after(plan, lane_capacity, shared.1, reductions) {
                Err(message) => Err(message),
                Ok(reduced) => match privates_after(plan, lane_capacity, privates) {
                    Err(message) => Err(message),
                    Ok(private) => concluded(plan, lane_capacity, shared.0, reduced, private),
                },
            },
        }
    }
}

/// The activations on their devices, where the private bytes are those of the plan.
pub open spec fn concluded(
    plan: VulkanDistributedActivationBufferPlanModel,
    lane_capacity: usize,
    shared: Seq<VulkanDistributedActivationBufferModel>,
    reduced: ReducedBuffersModel,
    private: PrivateBuffersModel,
) -> Result<VulkanDistributedActivationBuffersModel, Seq<char>> {
    let expected = plan.total_private_byte_capacity * lane_capacity;
    if expected > usize::MAX {
        Err("distributed private intermediate plan capacity overflowed"@)
    } else if private.1 != expected {
        Err(
            "distributed private intermediate allocation has "@ + decimal_text(private.1 as nat)
                + " bytes, expected "@ + decimal_text(expected as nat),
        )
    } else {
        Ok(
            VulkanDistributedActivationBuffersModel {
                plan,
                lane_capacity,
                allocations: shared,
                reduction_allocations: reduced.0,
                private_intermediate_allocations: private.0,
                allocation_count: plan.allocation_count,
                import_count: reduced.1.imports,
                total_shared_byte_capacity: reduced.1.bytes,
                total_private_byte_capacity: private.1,
            },
        )
    }
}

/// No device was asked for a private buffer after the first error.
pub open spec fn privates_stopped(
    plan: VulkanDistributedActivationBufferPlanModel,
    lane_capacity: usize,
    replies: Seq<Seq<Option<PrivateReply>>>,
) -> bool {
    replies.len() > 0 ==> {
        let earlier = privates_after(plan, lane_capacity, replies.drop_last());
        &&& earlier is Ok
        &&& replies.last().len() > 0 ==> private_devices_after(
            plan.private_intermediate_allocations[replies.len() - 1],
            lane_capacity,
            earlier->Ok_0.1,
            replies.last().drop_last(),
        ) is Ok
    }
}

/// The answers were given one after the other: for the activations, then for the
/// reductions, then for the private intermediates.
pub open spec fn answers_came<
    D,
    S: Fn(
        D,
        VulkanSharingTarget,
        &String,
        &Vec<String>,
        usize,
        VulkanSharedResidentBufferRoute,
    ) -> (D, SharingReply),
    C: Fn(D, usize, usize, &String, usize) -> (D, PrivateReply),
>(
    share: S,
    create: C,
    plan: VulkanDistributedActivationBufferPlanModel,
    lane_capacity: usize,
    defer_graph_edges: bool,
    sharings: Seq<Option<SharingReply>>,
    reductions: Seq<Option<SharingReply>>,
    privates: Seq<Seq<Option<PrivateReply>>>,
    from: D,
    to: D,
) -> bool {
    exists|shared: D, reduced: D|
        #![trigger sharings_gave(share, plan, lane_capacity, defer_graph_edges, sharings, from, shared), privates_gave(create, plan, lane_capacity, privates, reduced, to)]
        sharings_gave(share, plan, lane_capacity, defer_graph_edges, sharings, from, shared)
            && reductions_gave(share, plan, lane_capacity, reductions, shared, reduced)
            && privates_gave(create, plan, lane_capacity, privates, reduced, to)
}

/// The devices were asked in order, up to the first error and no further, and gave
/// these answers. Nothing else was asked of them.
pub open spec fn allocation_asked<
    D,
    S: Fn(
        D,
        VulkanSharingTarget,
        &String,
        &Vec<String>,
        usize,
        VulkanSharedResidentBufferRoute,
    ) -> (D, SharingReply),
    C: Fn(D, usize, usize, &String, usize) -> (D, PrivateReply),
>(
    share: S,
    create: C,
    plan: VulkanDistributedActivationBufferPlanModel,
    lane_capacity: usize,
    defer_graph_edges: bool,
    sharings: Seq<Option<SharingReply>>,
    reductions: Seq<Option<SharingReply>>,
    privates: Seq<Seq<Option<PrivateReply>>>,
    from: D,
    to: D,
) -> bool {
    let shared = shared_after(plan, lane_capacity, sharings);
    let reduced = reduced_after(plan, lane_capacity, shared->Ok_0.1, reductions);
    &&& answers_came(
        share,
        create,
        plan,
        lane_capacity,
        defer_graph_edges,
        sharings,
        reductions,
        privates,
        from,
        to,
    )
    &&& privates_are_whole(plan, lane_capacity, privates)
    &&& sharings.len() > 0 ==> shared_after(plan, lane_capacity, sharings.drop_last()) is Ok
    &&& reductions.len() > 0 ==> reduced_after(
        plan,
        lane_capacity,
        shared->Ok_0.1,
        reductions.drop_last(),
    ) is Ok
    &&& privates_stopped(plan, lane_capacity, privates)
    &&& if lane_capacity == 0 {
        sharings.len() == 0 && reductions.len() == 0 && privates.len() == 0
    } else if shared is Err {
        reductions.len() == 0 && privates.len() == 0
    } else if reduced is Err {
        sharings.len() == plan.allocations.len() && privates.len() == 0
    } else {
        &&& sharings.len() == plan.allocations.len()
        &&& reductions.len() == plan.reduction_allocations.len()
        &&& privates_after(plan, lane_capacity, privates) is Ok ==> privates.len()
            == plan.private_intermediate_allocations.len()
    }
}

/// Some answers that the devices can give lead to the outcome.
pub open spec fn allocation_can_give<
    D,
    S: Fn(
        D,
        VulkanSharingTarget,
        &String,
        &Vec<String>,
        usize,
        VulkanSharedResidentBufferRoute,
    ) -> (D, SharingReply),
    C: Fn(D, usize, usize, &String, usize) -> (D, PrivateReply),
>(
    share: S,
    create: C,
    plan: VulkanDistributedActivationBufferPlanModel,
    lane_capacity: usize,
    defer_graph_edges: bool,
    outcome: Result<VulkanDistributedActivationBuffers, VulkanDistributedActivationBufferError>,
    from: D,
    to: D,
) -> bool {
    exists|
        sharings: Seq<Option<SharingReply>>,
        reductions: Seq<Option<SharingReply>>,
        privates: Seq<Seq<Option<PrivateReply>>>,
    | #[trigger]
        allocation_asked(
            share,
            create,
            plan,
            lane_capacity,
            defer_graph_edges,
            sharings,
            reductions,
            privates,
            from,
            to,
        ) && buffers_agree(
            outcome,
            allocation_outcome(plan, lane_capacity, sharings, reductions, privates),
        )
}

/// The devices may be asked for what a plan holds: nobody where there are no lanes, then
/// for the activations, once all are shared for the reductions, and once these are shared
/// for the private intermediates. Nothing else is asked of them.
pub open spec fn allocation_can_be_asked<
    D,
    S: Fn(
        D,
        VulkanSharingTarget,
        &String,
        &Vec<String>,
        usize,
        VulkanSharedResidentBufferRoute,
    ) -> (D, SharingReply),
    C: Fn(D, usize, usize, &String, usize) -> (D, PrivateReply),
>(
    share: S,
    create: C,
    plan: VulkanDistributedActivationBufferPlanModel,
    lane_capacity: usize,
    defer_graph_edges: bool,
    from: D,
) -> bool {
    lane_capacity > 0 ==> {
        &&& activations_can_be_asked(share, plan, lane_capacity, defer_graph_edges, from)
        &&& forall|sharings: Seq<Option<SharingReply>>, at: D| #[trigger]
            activations_were_shared(
                share,
                plan,
                lane_capacity,
                defer_graph_edges,
                sharings,
                from,
                at,
            ) && sharings.len() == plan.allocations.len() ==> later_can_be_asked(
                share,
                create,
                plan,
                lane_capacity,
                shared_after(plan, lane_capacity, sharings)->Ok_0.1,
                at,
            )
    }
}

/// Once all activations are shared, the devices may be asked for the reductions, and once
/// these are shared for the private intermediates.
pub open spec fn later_can_be_asked<
    D,
    S: Fn(
        D,
        VulkanSharingTarget,
        &String,
        &Vec<String>,
        usize,
        VulkanSharedResidentBufferRoute,
    ) -> (D, SharingReply),
    C: Fn(D, usize, usize, &String, usize) -> (D, PrivateReply),
>(
    share: S,
    create: C,
    plan: VulkanDistributedActivationBufferPlanModel,
    lane_capacity: usize,
    tally: SharedTally,
    from: D,
) -> bool {
    &&& reductions_can_be_asked(share, plan, lane_capacity, tally, from)
    &&& forall|reductions: Seq<Option<SharingReply>>, at: D| #[trigger]
        reductions_were_shared(share, plan, lane_capacity, tally, reductions, from, at)
            && reductions.len() == plan.reduction_allocations.len() ==> privates_can_be_asked(
            create,
            plan,
            lane_capacity,
            at,
        )
}

fn allocate_shared<
    D,
    S: Fn(
        D,
        VulkanSharingTarget,
        &String,
        &Vec<String>,
        usize,
        VulkanSharedResidentBufferRoute,
    ) -> (D, SharingReply),
>(
    plan: &VulkanDistributedActivationBufferPlan,
    lane_capacity: usize,
    defer_graph_edges: bool,
    devices: D,
    share: &S,
) -> (result: (
    Result<SharedProgress, VulkanDistributedActivationBufferError>,
    D,
    Ghost<Seq<Option<SharingReply>>>,
))
    requires
        shares_with_all(*share),
        activations_can_be_asked(
            *share,
            plan.deep_view(),
            lane_capacity,
            defer_graph_edges,
            devices,
        ),
    ensures
        sharings_gave(
            *share,
            plan.deep_view(),
            lane_capacity,
            defer_graph_edges,
            result.2@,
            devices,
            result.1,
        ),
        result.2@.len() > 0 ==> shared_after(
            plan.deep_view(),
            lane_capacity,
            result.2@.drop_last(),
        ) is Ok,
        match result.0 {
            Ok(progress) => result.2@.len() == plan.allocations.len() && shared_after(
                plan.deep_view(),
                lane_capacity,
                result.2@,
            ) == Ok::<SharedBuffersModel, Seq<char>>(progress.model()),
            Err(error) => shared_after(plan.deep_view(), lane_capacity, result.2@) == Err::<
                SharedBuffersModel,
                Seq<char>,
            >(error.0@),
        },
{
    let ghost model = plan.deep_view();
    let ghost mut replies: Seq<Option<SharingReply>> = Seq::empty();
    let ghost from = devices;
    let mut current = devices;
    let mut progress = SharedProgress {
        buffers: Vec::new(),
        tally: SharedTally { imports: 0, bytes: 0 },
    };
    assert(progress.buffers.deep_view() =~= Seq::empty());
    for index in 0..plan.allocations.len()
        invariant
            shares_with_all(*share),
            activations_can_be_asked(*share, model, lane_capacity, defer_graph_edges, from),
            from == devices,
            model == plan.deep_view(),
            replies.len() == index,
            sharings_gave(
                *share,
                model,
                lane_capacity,
                defer_graph_edges,
                replies,
                from,
                current,
            ),
            shared_after(model, lane_capacity, replies) == Ok::<SharedBuffersModel, Seq<char>>(
                progress.model(),
            ),
    {
        let ghost at = current;
        assert(activations_were_shared(
            *share,
            model,
            lane_capacity,
            defer_graph_edges,
            replies,
            from,
            at,
        ));
        let (outcome, left, reply) = add_shared_activation(
            &mut progress,
            plan,
            index,
            lane_capacity,
            defer_graph_edges,
            current,
            share,
        );
        current = left;
        proof {
            let next = replies.push(reply@);
            assert(next.drop_last() =~= replies);
            assert(activation_gave(
                *share,
                model,
                lane_capacity,
                defer_graph_edges,
                next.len() - 1,
                next.last(),
                at,
                current,
            ));
            assert(sharings_gave(
                *share,
                model,
                lane_capacity,
                defer_graph_edges,
                next,
                from,
                current,
            ));
            replies = next;
        }
        match outcome {
            Err(error) => {
                return (Err(error), current, Ghost(replies));
            },
            Ok(_) => {},
        }
    }
    (Ok(progress), current, Ghost(replies))
}

fn allocate_reduced<
    D,
    S: Fn(
        D,
        VulkanSharingTarget,
        &String,
        &Vec<String>,
        usize,
        VulkanSharedResidentBufferRoute,
    ) -> (D, SharingReply),
>(
    plan: &VulkanDistributedActivationBufferPlan,
    lane_capacity: usize,
    tally: SharedTally,
    devices: D,
    share: &S,
) -> (result: (
    Result<ReducedProgress, VulkanDistributedActivationBufferError>,
    D,
    Ghost<Seq<Option<SharingReply>>>,
))
    requires
        shares_with_all(*share),
        reductions_can_be_asked(*share, plan.deep_view(), lane_capacity, tally, devices),
    ensures
        reductions_gave(
            *share,
            plan.deep_view(),
            lane_capacity,
            result.2@,
            devices,
            result.1,
        ),
        result.2@.len() > 0 ==> reduced_after(
            plan.deep_view(),
            lane_capacity,
            tally,
            result.2@.drop_last(),
        ) is Ok,
        match result.0 {
            Ok(progress) => result.2@.len() == plan.reduction_allocations.len() && reduced_after(
                plan.deep_view(),
                lane_capacity,
                tally,
                result.2@,
            ) == Ok::<ReducedBuffersModel, Seq<char>>(progress.model()),
            Err(error) => reduced_after(plan.deep_view(), lane_capacity, tally, result.2@) == Err::<
                ReducedBuffersModel,
                Seq<char>,
            >(error.0@),
        },
{
    let ghost model = plan.deep_view();
    let ghost mut replies: Seq<Option<SharingReply>> = Seq::empty();
    let ghost from = devices;
    let mut current = devices;
    let mut progress = ReducedProgress { buffers: Vec::new(), tally };
    assert(progress.buffers.deep_view() =~= Seq::empty());
    for index in 0..plan.reduction_allocations.len()
        invariant
            shares_with_all(*share),
            reductions_can_be_asked(*share, model, lane_capacity, tally, from),
            from == devices,
            model == plan.deep_view(),
            replies.len() == index,
            reductions_gave(*share, model, lane_capacity, replies, from, current),
            reduced_after(model, lane_capacity, tally, replies) == Ok::<
                ReducedBuffersModel,
                Seq<char>,
            >(progress.model()),
    {
        let ghost at = current;
        assert(reductions_were_shared(
            *share,
            model,
            lane_capacity,
            tally,
            replies,
            from,
            at,
        ));
        let (outcome, left, reply) = add_shared_reduction(
            &mut progress,
            plan,
            index,
            lane_capacity,
            current,
            share,
        );
        current = left;
        proof {
            let next = replies.push(reply@);
            assert(next.drop_last() =~= replies);
            assert(reduction_gave(
                *share,
                model,
                lane_capacity,
                next.len() - 1,
                next.last(),
                at,
                current,
            ));
            assert(reductions_gave(*share, model, lane_capacity, next, from, current));
            replies = next;
        }
        match outcome {
            Err(error) => {
                return (Err(error), current, Ghost(replies));
            },
            Ok(_) => {},
        }
    }
    (Ok(progress), current, Ghost(replies))
}

/// The private intermediates on their devices.
struct PrivatesProgress {
    buffers: Vec<VulkanDistributedPrivateIntermediateBuffer>,
    bytes: usize,
}

impl PrivatesProgress {
    spec fn model(self) -> PrivateBuffersModel {
        (self.buffers.deep_view(), self.bytes)
    }
}

fn allocate_privates<
    D,
    C: Fn(D, usize, usize, &String, usize) -> (D, PrivateReply),
>(
    plan: &VulkanDistributedActivationBufferPlan,
    lane_capacity: usize,
    devices: D,
    create: &C,
) -> (result: (
    Result<PrivatesProgress, VulkanDistributedActivationBufferError>,
    D,
    Ghost<Seq<Seq<Option<PrivateReply>>>>,
))
    requires
        privates_can_be_asked(*create, plan.deep_view(), lane_capacity, devices),
    ensures
        privates_gave(
            *create,
            plan.deep_view(),
            lane_capacity,
            result.2@,
            devices,
            result.1,
        ),
        privates_are_whole(plan.deep_view(), lane_capacity, result.2@),
        privates_stopped(plan.deep_view(), lane_capacity, result.2@),
        match result.0 {
            Ok(progress) => result.2@.len() == plan.private_intermediate_allocations.len()
                && privates_after(plan.deep_view(), lane_capacity, result.2@) == Ok::<
                PrivateBuffersModel,
                Seq<char>,
            >(progress.model()),
            Err(error) => privates_after(plan.deep_view(), lane_capacity, result.2@) == Err::<
                PrivateBuffersModel,
                Seq<char>,
            >(error.0@),
        },
{
    let ghost model = plan.deep_view();
    let ghost mut replies: Seq<Seq<Option<PrivateReply>>> = Seq::empty();
    let ghost from = devices;
    let mut current = devices;
    let mut progress = PrivatesProgress { buffers: Vec::new(), bytes: 0 };
    assert(progress.buffers.deep_view() =~= Seq::empty());
    for index in 0..plan.private_intermediate_allocations.len()
        invariant
            privates_can_be_asked(*create, model, lane_capacity, from),
            from == devices,
            model == plan.deep_view(),
            replies.len() == index,
            privates_gave(*create, model, lane_capacity, replies, from, current),
            privates_are_whole(model, lane_capacity, replies),
            privates_after(model, lane_capacity, replies) == Ok::<PrivateBuffersModel, Seq<char>>(
                progress.model(),
            ),
    {
        let planned = &plan.private_intermediate_allocations[index];
        assert(model.private_intermediate_allocations[index as int] == planned.deep_view());
        let ghost at = current;
        assert(privates_were_given(*create, model, lane_capacity, replies, from, at));
        let (outcome, left, given) = allocate_private(
            index,
            planned,
            lane_capacity,
            progress.bytes,
            current,
            create,
        );
        current = left;
        let ghost earlier = replies;
        proof {
            replies = earlier.push(given@);
            assert(replies.drop_last() =~= earlier);
            assert(private_devices_gave(
                *create,
                (replies.len() - 1) as usize,
                model.private_intermediate_allocations[replies.len() - 1],
                lane_capacity,
                replies.last(),
                at,
                current,
            ));
            assert(privates_gave(*create, model, lane_capacity, replies, from, current));
        }
        match outcome {
            Err(error) => {
                return (Err(error), current, Ghost(replies));
            },
            Ok(devices) => {
                progress.bytes = devices.bytes;
                append(
                    &mut progress.buffers,
                    VulkanDistributedPrivateIntermediateBuffer {
                        planned: planned.duplicate(),
                        device_buffers: devices.device_buffers,
                    },
                );
            },
        }
    }
    (Ok(progress), current, Ghost(replies))
}

/// Where nobody was asked, the devices are as they were.
proof fn lemma_nobody_asked<
    D,
    S: Fn(
        D,
        VulkanSharingTarget,
        &String,
        &Vec<String>,
        usize,
        VulkanSharedResidentBufferRoute,
    ) -> (D, SharingReply),
    C: Fn(D, usize, usize, &String, usize) -> (D, PrivateReply),
>(
    share: S,
    create: C,
    plan: VulkanDistributedActivationBufferPlanModel,
    lane_capacity: usize,
    defer_graph_edges: bool,
    from: D,
)
    ensures
        answers_came(
            share,
            create,
            plan,
            lane_capacity,
            defer_graph_edges,
            Seq::empty(),
            Seq::empty(),
            Seq::empty(),
            from,
            from,
        ),
{
    assert(sharings_gave(
        share,
        plan,
        lane_capacity,
        defer_graph_edges,
        Seq::empty(),
        from,
        from,
    ));
    assert(reductions_gave(share, plan, lane_capacity, Seq::empty(), from, from));
    assert(privates_gave(create, plan, lane_capacity, Seq::empty(), from, from));
}

impl VulkanDistributedActivationBuffers {
    /// Allocates the activations of a plan.
    pub fn allocate<
        D,
        S: Fn(
            D,
            VulkanSharingTarget,
            &String,
            &Vec<String>,
            usize,
            VulkanSharedResidentBufferRoute,
        ) -> (D, SharingReply),
        C: Fn(D, usize, usize, &String, usize) -> (D, PrivateReply),
    >(
        plan: &VulkanDistributedActivationBufferPlan,
        devices: D,
        share: &S,
        create: &C,
    ) -> (result: (Result<Self, VulkanDistributedActivationBufferError>, D))
        requires
            shares_with_all(*share),
            allocation_can_be_asked(
                *share,
                *create,
                plan.deep_view(),
                1,
                false,
                devices,
            ),
        ensures
            allocation_can_give(
                *share,
                *create,
                plan.deep_view(),
                1,
                false,
                result.0,
                devices,
                result.1,
            ),
    {
        Self::allocate_for_lanes(plan, 1, devices, share, create)
    }

    /// Allocates the activations of a plan except graph edges, whose devices are
    /// chosen later.
    pub fn allocate_deferring_graph_edges<
        D,
        S: Fn(
            D,
            VulkanSharingTarget,
            &String,
            &Vec<String>,
            usize,
            VulkanSharedResidentBufferRoute,
        ) -> (D, SharingReply),
        C: Fn(D, usize, usize, &String, usize) -> (D, PrivateReply),
    >(
        plan: &VulkanDistributedActivationBufferPlan,
        devices: D,
        share: &S,
        create: &C,
    ) -> (result: (Result<Self, VulkanDistributedActivationBufferError>, D))
        requires
            shares_with_all(*share),
            allocation_can_be_asked(
                *share,
                *create,
                plan.deep_view(),
                1,
                true,
                devices,
            ),
        ensures
            allocation_can_give(
                *share,
                *create,
                plan.deep_view(),
                1,
                true,
                result.0,
                devices,
                result.1,
            ),
    {
        Self::allocate_for_lanes_with_deferred_graph_edges(
            plan,
            1,
            true,
            devices,
            share,
            create,
        )
    }

    /// Allocates the activations of a plan for a number of lanes.
    pub fn allocate_for_lanes<
        D,
        S: Fn(
            D,
            VulkanSharingTarget,
            &String,
            &Vec<String>,
            usize,
            VulkanSharedResidentBufferRoute,
        ) -> (D, SharingReply),
        C: Fn(D, usize, usize, &String, usize) -> (D, PrivateReply),
    >(
        plan: &VulkanDistributedActivationBufferPlan,
        lane_capacity: usize,
        devices: D,
        share: &S,
        create: &C,
    ) -> (result: (Result<Self, VulkanDistributedActivationBufferError>, D))
        requires
            shares_with_all(*share),
            allocation_can_be_asked(
                *share,
                *create,
                plan.deep_view(),
                lane_capacity,
                false,
                devices,
            ),
        ensures
            allocation_can_give(
                *share,
                *create,
                plan.deep_view(),
                lane_capacity,
                false,
                result.0,
                devices,
                result.1,
            ),
    {
        Self::allocate_for_lanes_with_deferred_graph_edges(
            plan,
            lane_capacity,
            false,
            devices,
            share,
            create,
        )
    }

    /// Allocates the activations of a plan for a number of lanes, graph edges
    /// excepted where they are deferred. The devices are handed from call to call, so that
    /// one call after the other is made on them and none is made twice.
    pub fn allocate_for_lanes_with_deferred_graph_edges<
        D,
        S: Fn(
            D,
            VulkanSharingTarget,
            &String,
            &Vec<String>,
            usize,
            VulkanSharedResidentBufferRoute,
        ) -> (D, SharingReply),
        C: Fn(D, usize, usize, &String, usize) -> (D, PrivateReply),
    >(
        plan: &VulkanDistributedActivationBufferPlan,
        lane_capacity: usize,
        defer_graph_edges: bool,
        devices: D,
        share: &S,
        create: &C,
    ) -> (result: (Result<Self, VulkanDistributedActivationBufferError>, D))
        requires
            shares_with_all(*share),
            allocation_can_be_asked(
                *share,
                *create,
                plan.deep_view(),
                lane_capacity,
                defer_graph_edges,
                devices,
            ),
        ensures
            allocation_can_give(
                *share,
                *create,
                plan.deep_view(),
                lane_capacity,
                defer_graph_edges,
                result.0,
                devices,
                result.1,
            ),
    {
        let ghost from = devices;
        let (allocated, left, sharings, reductions, privates) = Self::allocate_recorded(
            plan,
            lane_capacity,
            defer_graph_edges,
            devices,
            share,
            create,
        );
        assert(allocation_asked(
            *share,
            *create,
            plan.deep_view(),
            lane_capacity,
            defer_graph_edges,
            sharings@,
            reductions@,
            privates@,
            from,
            left,
        ));
        (allocated, left)
    }

    /// Allocates the activations of a plan; the other results are the answers of
    /// the devices.
    fn allocate_recorded<
        D,
        S: Fn(
            D,
            VulkanSharingTarget,
            &String,
            &Vec<String>,
            usize,
            VulkanSharedResidentBufferRoute,
        ) -> (D, SharingReply),
        C: Fn(D, usize, usize, &String, usize) -> (D, PrivateReply),
    >(
        plan: &VulkanDistributedActivationBufferPlan,
        lane_capacity: usize,
        defer_graph_edges: bool,
        devices: D,
        share: &S,
        create: &C,
    ) -> (result: (
        Result<Self, VulkanDistributedActivationBufferError>,
        D,
        Ghost<Seq<Option<SharingReply>>>,
        Ghost<Seq<Option<SharingReply>>>,
        Ghost<Seq<Seq<Option<PrivateReply>>>>,
    ))
        requires
            shares_with_all(*share),
            allocation_can_be_asked(
                *share,
                *create,
                plan.deep_view(),
                lane_capacity,
                defer_graph_edges,
                devices,
            ),
        ensures
            allocation_asked(
                *share,
                *create,
                plan.deep_view(),
                lane_capacity,
                defer_graph_edges,
                result.2@,
                result.3@,
                result.4@,
                devices,
                result.1,
            ),
            buffers_agree(
                result.0,
                allocation_outcome(
                    plan.deep_view(),
                    lane_capacity,
                    result.2@,
                    result.3@,
                    result.4@,
                ),
            ),
    {
        let ghost from = devices;
        let ghost model = plan.deep_view();
        let ghost none: Seq<Option<SharingReply>> = Seq::empty();
        let ghost nobody: Seq<Seq<Option<PrivateReply>>> = Seq::empty();
        if lane_capacity == 0 {
            proof {
                lemma_nobody_asked(*share, *create, model, lane_capacity, defer_graph_edges, from);
            }
            return (
                fault("distributed activation lane capacity must not be zero".to_owned()),
                devices,
                Ghost(none),
                Ghost(none),
                Ghost(nobody),
            );
        }
        let (sharing, held, sharings) = allocate_shared(
            plan,
            lane_capacity,
            defer_graph_edges,
            devices,
            share,
        );
        let ghost shared_at = held;
        let shared = match sharing {
            Err(error) => {
                assert(reductions_gave(*share, model, lane_capacity, none, shared_at, shared_at));
                assert(privates_gave(*create, model, lane_capacity, nobody, shared_at, shared_at));
                return (Err(error), held, sharings, Ghost(none), Ghost(nobody));
            },
            Ok(shared) => shared,
        };
        assert(activations_were_shared(
            *share,
            plan.deep_view(),
            lane_capacity,
            defer_graph_edges,
            sharings@,
            from,
            shared_at,
        ));
        let (reducing, kept, reductions) = allocate_reduced(
            plan,
            lane_capacity,
            shared.tally,
            held,
            share,
        );
        let ghost reduced_at = kept;
        let reduced = match reducing {
            Err(error) => {
                assert(privates_gave(*create, model, lane_capacity, nobody, reduced_at, reduced_at));
                return (Err(error), kept, sharings, reductions, Ghost(nobody));
            },
            Ok(reduced) => reduced,
        };
        assert(reductions_were_shared(
            *share,
            plan.deep_view(),
            lane_capacity,
            shared.tally,
            reductions@,
            shared_at,
            reduced_at,
        ));
        let (handing_off, left, privates) = allocate_privates(plan, lane_capacity, kept, create);
        assert(answers_came(
            *share,
            *create,
            model,
            lane_capacity,
            defer_graph_edges,
            sharings@,
            reductions@,
            privates@,
            from,
            left,
        ));
        let private = match handing_off {
            Err(error) => {
                return (Err(error), left, sharings, reductions, privates);
            },
            Ok(private) => private,
        };
        let expected: usize = match plan.total_private_byte_capacity.checked_mul(lane_capacity) {
            None => {
                return (
                    fault("distributed private intermediate plan capacity overflowed".to_owned()),
                    left,
                    sharings,
                    reductions,
                    privates,
                );
            },
            Some(bytes) => bytes,
        };
        if private.bytes != expected {
            return (
                fault(
                    join4(
                        "distributed private intermediate allocation has ",
                        decimal(private.bytes).as_str(),
                        " bytes, expected ",
                        decimal(expected).as_str(),
                    ),
                ),
                left,
                sharings,
                reductions,
                privates,
            );
        }
        (
            Ok(
                VulkanDistributedActivationBuffers {
                    plan: plan.duplicate(),
                    lane_capacity,
                    allocation_count: plan.allocation_count,
                    allocations: shared.buffers,
                    reduction_allocations: reduced.buffers,
                    private_intermediate_allocations: private.buffers,
                    import_count: reduced.tally.imports,
                    total_shared_byte_capacity: reduced.tally.bytes,
                    total_private_byte_capacity: private.bytes,
                },
            ),
            left,
            sharings,
            reductions,
            privates,
        )
    }
}

} // verus!
