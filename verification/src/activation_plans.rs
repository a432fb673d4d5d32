//! The activations that the devices of distributed dispatches share.
use vstd::prelude::*;

use crate::errors::{plan_agrees, VulkanDistributedPlanError};
use crate::execution_plans::{
    VulkanDistributedActivationSlot, VulkanDistributedActivationSlotModel,
    VulkanDistributedActivationStorage, VulkanDistributedActivationStorageModel,
    VulkanSharedResidentBufferRoute,
};
use crate::islands::{activation_owner, distributed_activation_owner_device_id};
use crate::ordered::{OrderedMap, OrderedSet};
use crate::sequences::holds;
use crate::text::{debug_text, decimal, decimal_text, join3, join6, quoted};
use crate::values::PlainValue;

verus! {

/// How a dispatch uses an activation.
#[derive(Clone, Copy, Debug, PartialEq, Eq, Structural)]
pub enum VulkanDistributedActivationAccess {
    Input,
    Output,
}

impl DeepView for VulkanDistributedActivationAccess {
    type V = VulkanDistributedActivationAccess;

    open spec fn deep_view(&self) -> VulkanDistributedActivationAccess {
        *self
    }
}

impl PlainValue for VulkanDistributedActivationAccess {
    fn duplicate(&self) -> (copy: Self) {
        *self
    }

    fn same(&self, other: &Self) -> (equal: bool) {
        *self == *other
    }
}

/// An activation that several devices share.
#[derive(Debug, PartialEq, Eq)]
pub struct VulkanDistributedActivationBufferAllocation {
    pub storage: VulkanDistributedActivationStorage,
    pub owner_device_id: String,
    pub component_id: String,
    pub slot: usize,
    pub byte_capacity: usize,
    pub signal_ids: Vec<String>,
    pub device_ids: Vec<String>,
    pub input_use_count: usize,
    pub output_use_count: usize,
}

/// The model of [`VulkanDistributedActivationBufferAllocation`].
pub struct VulkanDistributedActivationBufferAllocationModel {
    pub storage: VulkanDistributedActivationStorageModel,
    pub owner_device_id: Seq<char>,
    pub component_id: Seq<char>,
    pub slot: usize,
    pub byte_capacity: usize,
    pub signal_ids: Seq<Seq<char>>,
    pub device_ids: Seq<Seq<char>>,
    pub input_use_count: usize,
    pub output_use_count: usize,
}

impl DeepView for VulkanDistributedActivationBufferAllocation {
    type V = VulkanDistributedActivationBufferAllocationModel;

    open spec fn deep_view(&self) -> VulkanDistributedActivationBufferAllocationModel {
        VulkanDistributedActivationBufferAllocationModel {
            storage: self.storage.deep_view(),
            owner_device_id: self.owner_device_id.deep_view(),
            component_id: self.component_id.deep_view(),
            slot: self.slot.deep_view(),
            byte_capacity: self.byte_capacity.deep_view(),
            signal_ids: self.signal_ids.deep_view(),
            device_ids: self.device_ids.deep_view(),
            input_use_count: self.input_use_count.deep_view(),
            output_use_count: self.output_use_count.deep_view(),
        }
    }
}

impl Clone for VulkanDistributedActivationBufferAllocation {
    fn clone(&self) -> (copy: Self)
        ensures
            copy.deep_view() == self.deep_view(),
    {
        self.duplicate()
    }
}

impl PlainValue for VulkanDistributedActivationBufferAllocation {
    fn duplicate(&self) -> (copy: Self) {
        VulkanDistributedActivationBufferAllocation {
            storage: self.storage.duplicate(),
            owner_device_id: self.owner_device_id.duplicate(),
            component_id: self.component_id.duplicate(),
            slot: self.slot.duplicate(),
            byte_capacity: self.byte_capacity.duplicate(),
            signal_ids: self.signal_ids.duplicate(),
            device_ids: self.device_ids.duplicate(),
            input_use_count: self.input_use_count.duplicate(),
            output_use_count: self.output_use_count.duplicate(),
        }
    }

    fn same(&self, other: &Self) -> (equal: bool) {
        self.storage.same(&other.storage)
            && self.owner_device_id.same(&other.owner_device_id)
            && self.component_id.same(&other.component_id)
            && self.slot.same(&other.slot)
            && self.byte_capacity.same(&other.byte_capacity)
            && self.signal_ids.same(&other.signal_ids)
            && self.device_ids.same(&other.device_ids)
            && self.input_use_count.same(&other.input_use_count)
            && self.output_use_count.same(&other.output_use_count)
    }
}

/// The partial outputs of a reduced dispatch, one plane for each device.
#[derive(Debug, PartialEq, Eq)]
pub struct VulkanDistributedReductionBufferAllocation {
    pub owner_device_id: String,
    pub dispatch_index: usize,
    pub component_id: String,
    pub node_id: String,
    pub plane_byte_capacity: usize,
    pub byte_capacity: usize,
    pub device_ids: Vec<String>,
}

/// The model of [`VulkanDistributedReductionBufferAllocation`].
pub struct VulkanDistributedReductionBufferAllocationModel {
    pub owner_device_id: Seq<char>,
    pub dispatch_index: usize,
    pub component_id: Seq<char>,
    pub node_id: Seq<char>,
    pub plane_byte_capacity: usize,
    pub byte_capacity: usize,
    pub device_ids: Seq<Seq<char>>,
}

impl DeepView for VulkanDistributedReductionBufferAllocation {
    type V = VulkanDistributedReductionBufferAllocationModel;

    open spec fn deep_view(&self) -> VulkanDistributedReductionBufferAllocationModel {
        VulkanDistributedReductionBufferAllocationModel {
            owner_device_id: self.owner_device_id.deep_view(),
            dispatch_index: self.dispatch_index.deep_view(),
            component_id: self.component_id.deep_view(),
            node_id: self.node_id.deep_view(),
            plane_byte_capacity: self.plane_byte_capacity.deep_view(),
            byte_capacity: self.byte_capacity.deep_view(),
            device_ids: self.device_ids.deep_view(),
        }
    }
}

impl Clone for VulkanDistributedReductionBufferAllocation {
    fn clone(&self) -> (copy: Self)
        ensures
            copy.deep_view() == self.deep_view(),
    {
        self.duplicate()
    }
}

impl PlainValue for VulkanDistributedReductionBufferAllocation {
    fn duplicate(&self) -> (copy: Self) {
        VulkanDistributedReductionBufferAllocation {
            owner_device_id: self.owner_device_id.duplicate(),
            dispatch_index: self.dispatch_index.duplicate(),
            component_id: self.component_id.duplicate(),
            node_id: self.node_id.duplicate(),
            plane_byte_capacity: self.plane_byte_capacity.duplicate(),
            byte_capacity: self.byte_capacity.duplicate(),
            device_ids: self.device_ids.duplicate(),
        }
    }

    fn same(&self, other: &Self) -> (equal: bool) {
        self.owner_device_id.same(&other.owner_device_id)
            && self.dispatch_index.same(&other.dispatch_index)
            && self.component_id.same(&other.component_id)
            && self.node_id.same(&other.node_id)
            && self.plane_byte_capacity.same(&other.plane_byte_capacity)
            && self.byte_capacity.same(&other.byte_capacity)
            && self.device_ids.same(&other.device_ids)
    }
}

/// The bytes of a private intermediate on a device.
#[derive(Debug, PartialEq, Eq)]
pub struct VulkanDistributedPrivateIntermediateDeviceAllocation {
    pub device_id: String,
    pub byte_capacity: usize,
}

/// The model of [`VulkanDistributedPrivateIntermediateDeviceAllocation`].
pub struct VulkanDistributedPrivateIntermediateDeviceAllocationModel {
    pub device_id: Seq<char>,
    pub byte_capacity: usize,
}

impl DeepView for VulkanDistributedPrivateIntermediateDeviceAllocation {
    type V = VulkanDistributedPrivateIntermediateDeviceAllocationModel;

    open spec fn deep_view(&self) -> VulkanDistributedPrivateIntermediateDeviceAllocationModel {
        VulkanDistributedPrivateIntermediateDeviceAllocationModel {
            device_id: self.device_id.deep_view(),
            byte_capacity: self.byte_capacity.deep_view(),
        }
    }
}

impl Clone for VulkanDistributedPrivateIntermediateDeviceAllocation {
    fn clone(&self) -> (copy: Self)
        ensures
            copy.deep_view() == self.deep_view(),
    {
        self.duplicate()
    }
}

impl PlainValue for VulkanDistributedPrivateIntermediateDeviceAllocation {
    fn duplicate(&self) -> (copy: Self) {
        VulkanDistributedPrivateIntermediateDeviceAllocation {
            device_id: self.device_id.duplicate(),
            byte_capacity: self.byte_capacity.duplicate(),
        }
    }

    fn same(&self, other: &Self) -> (equal: bool) {
        self.device_id.same(&other.device_id)
            && self.byte_capacity.same(&other.byte_capacity)
    }
}

/// An intermediate that every device hands to itself.
#[derive(Debug, PartialEq, Eq)]
pub struct VulkanDistributedPrivateIntermediateBufferAllocation {
    pub producer_dispatch_index: usize,
    pub consumer_dispatch_index: usize,
    pub component_id: String,
    pub signal_id: String,
    pub devices: Vec<VulkanDistributedPrivateIntermediateDeviceAllocation>,
}

/// The model of [`VulkanDistributedPrivateIntermediateBufferAllocation`].
pub struct VulkanDistributedPrivateIntermediateBufferAllocationModel {
    pub producer_dispatch_index: usize,
    pub consumer_dispatch_index: usize,
    pub component_id: Seq<char>,
    pub signal_id: Seq<char>,
    pub devices: Seq<VulkanDistributedPrivateIntermediateDeviceAllocationModel>,
}

impl DeepView for VulkanDistributedPrivateIntermediateBufferAllocation {
    type V = VulkanDistributedPrivateIntermediateBufferAllocationModel;

    open spec fn deep_view(&self) -> VulkanDistributedPrivateIntermediateBufferAllocationModel {
        VulkanDistributedPrivateIntermediateBufferAllocationModel {
            producer_dispatch_index: self.producer_dispatch_index.deep_view(),
            consumer_dispatch_index: self.consumer_dispatch_index.deep_view(),
            component_id: self.component_id.deep_view(),
            signal_id: self.signal_id.deep_view(),
            devices: self.devices.deep_view(),
        }
    }
}

impl Clone for VulkanDistributedPrivateIntermediateBufferAllocation {
    fn clone(&self) -> (copy: Self)
        ensures
            copy.deep_view() == self.deep_view(),
    {
        self.duplicate()
    }
}

impl PlainValue for VulkanDistributedPrivateIntermediateBufferAllocation {
    fn duplicate(&self) -> (copy: Self) {
        VulkanDistributedPrivateIntermediateBufferAllocation {
            producer_dispatch_index: self.producer_dispatch_index.duplicate(),
            consumer_dispatch_index: self.consumer_dispatch_index.duplicate(),
            component_id: self.component_id.duplicate(),
            signal_id: self.signal_id.duplicate(),
            devices: self.devices.duplicate(),
        }
    }

    fn same(&self, other: &Self) -> (equal: bool) {
        self.producer_dispatch_index.same(&other.producer_dispatch_index)
            && self.consumer_dispatch_index.same(&other.consumer_dispatch_index)
            && self.component_id.same(&other.component_id)
            && self.signal_id.same(&other.signal_id)
            && self.devices.same(&other.devices)
    }
}

/// The activations that the devices of a plan allocate.
#[derive(Debug, PartialEq, Eq)]
pub struct VulkanDistributedActivationBufferPlan {
    pub allocations: Vec<VulkanDistributedActivationBufferAllocation>,
    pub reduction_allocations: Vec<VulkanDistributedReductionBufferAllocation>,
    pub private_intermediate_allocations: Vec<VulkanDistributedPrivateIntermediateBufferAllocation>,
    pub allocation_count: usize,
    pub import_count: usize,
    pub reference_count: usize,
    pub total_shared_byte_capacity: usize,
    pub total_private_byte_capacity: usize,
    pub route: VulkanSharedResidentBufferRoute,
}

/// The model of [`VulkanDistributedActivationBufferPlan`].
pub struct VulkanDistributedActivationBufferPlanModel {
    pub allocations: Seq<VulkanDistributedActivationBufferAllocationModel>,
    pub reduction_allocations: Seq<VulkanDistributedReductionBufferAllocationModel>,
    pub private_intermediate_allocations: Seq<VulkanDistributedPrivateIntermediateBufferAllocationModel>,
    pub allocation_count: usize,
    pub import_count: usize,
    pub reference_count: usize,
    pub total_shared_byte_capacity: usize,
    pub total_private_byte_capacity: usize,
    pub route: VulkanSharedResidentBufferRoute,
}

impl DeepView for VulkanDistributedActivationBufferPlan {
    type V = VulkanDistributedActivationBufferPlanModel;

    open spec fn deep_view(&self) -> VulkanDistributedActivationBufferPlanModel {
        VulkanDistributedActivationBufferPlanModel {
            allocations: self.allocations.deep_view(),
            reduction_allocations: self.reduction_allocations.deep_view(),
            private_intermediate_allocations: self.private_intermediate_allocations.deep_view(),
            allocation_count: self.allocation_count.deep_view(),
            import_count: self.import_count.deep_view(),
            reference_count: self.reference_count.deep_view(),
            total_shared_byte_capacity: self.total_shared_byte_capacity.deep_view(),
            total_private_byte_capacity: self.total_private_byte_capacity.deep_view(),
            route: self.route.deep_view(),
        }
    }
}

impl Clone for VulkanDistributedActivationBufferPlan {
    fn clone(&self) -> (copy: Self)
        ensures
            copy.deep_view() == self.deep_view(),
    {
        self.duplicate()
    }
}

impl PlainValue for VulkanDistributedActivationBufferPlan {
    fn duplicate(&self) -> (copy: Self) {
        VulkanDistributedActivationBufferPlan {
            allocations: self.allocations.duplicate(),
            reduction_allocations: self.reduction_allocations.duplicate(),
            private_intermediate_allocations: self.private_intermediate_allocations.duplicate(),
            allocation_count: self.allocation_count.duplicate(),
            import_count: self.import_count.duplicate(),
            reference_count: self.reference_count.duplicate(),
            total_shared_byte_capacity: self.total_shared_byte_capacity.duplicate(),
            total_private_byte_capacity: self.total_private_byte_capacity.duplicate(),
            route: self.route.duplicate(),
        }
    }

    fn same(&self, other: &Self) -> (equal: bool) {
        self.allocations.same(&other.allocations)
            && self.reduction_allocations.same(&other.reduction_allocations)
            && self.private_intermediate_allocations.same(&other.private_intermediate_allocations)
            && self.allocation_count.same(&other.allocation_count)
            && self.import_count.same(&other.import_count)
            && self.reference_count.same(&other.reference_count)
            && self.total_shared_byte_capacity.same(&other.total_shared_byte_capacity)
            && self.total_private_byte_capacity.same(&other.total_private_byte_capacity)
            && self.route.same(&other.route)
    }
}

/// An activation whose signals and devices are still being collected.
#[derive(Debug, PartialEq, Eq)]
pub struct SharedActivation {
    pub storage: VulkanDistributedActivationStorage,
    pub owner_device_id: String,
    pub component_id: String,
    pub slot: usize,
    pub byte_capacity: usize,
    pub signals: OrderedSet<String>,
    pub devices: OrderedSet<String>,
    pub input_use_count: usize,
    pub output_use_count: usize,
}

/// The model of [`SharedActivation`].
pub struct SharedActivationModel {
    pub storage: VulkanDistributedActivationStorageModel,
    pub owner_device_id: Seq<char>,
    pub component_id: Seq<char>,
    pub slot: usize,
    pub byte_capacity: usize,
    pub signals: Set<Seq<char>>,
    pub devices: Set<Seq<char>>,
    pub input_use_count: usize,
    pub output_use_count: usize,
}

impl DeepView for SharedActivation {
    type V = SharedActivationModel;

    open spec fn deep_view(&self) -> SharedActivationModel {
        SharedActivationModel {
            storage: self.storage.deep_view(),
            owner_device_id: self.owner_device_id.deep_view(),
            component_id: self.component_id.deep_view(),
            slot: self.slot.deep_view(),
            byte_capacity: self.byte_capacity.deep_view(),
            signals: self.signals.deep_view(),
            devices: self.devices.deep_view(),
            input_use_count: self.input_use_count.deep_view(),
            output_use_count: self.output_use_count.deep_view(),
        }
    }
}

impl Clone for SharedActivation {
    fn clone(&self) -> (copy: Self)
        ensures
            copy.deep_view() == self.deep_view(),
    {
        self.duplicate()
    }
}

impl PlainValue for SharedActivation {
    fn duplicate(&self) -> (copy: Self) {
        SharedActivation {
            storage: self.storage.duplicate(),
            owner_device_id: self.owner_device_id.duplicate(),
            component_id: self.component_id.duplicate(),
            slot: self.slot.duplicate(),
            byte_capacity: self.byte_capacity.duplicate(),
            signals: self.signals.duplicate(),
            devices: self.devices.duplicate(),
            input_use_count: self.input_use_count.duplicate(),
            output_use_count: self.output_use_count.duplicate(),
        }
    }

    fn same(&self, other: &Self) -> (equal: bool) {
        self.storage.same(&other.storage)
            && self.owner_device_id.same(&other.owner_device_id)
            && self.component_id.same(&other.component_id)
            && self.slot.same(&other.slot)
            && self.byte_capacity.same(&other.byte_capacity)
            && self.signals.same(&other.signals)
            && self.devices.same(&other.devices)
            && self.input_use_count.same(&other.input_use_count)
            && self.output_use_count.same(&other.output_use_count)
    }
}

/// The identity of a shared activation: kind of storage, edge, owner, component,
/// signal and slot, as far as the kind has them.
pub type ActivationKey = (usize, (usize, (String, (String, (String, usize)))));

/// The model of [`ActivationKey`].
pub type ActivationKeyModel = (usize, (usize, (Seq<char>, (Seq<char>, (Seq<char>, usize)))));

/// The identity of an activation of a dispatch.
pub open spec fn activation_key(
    owner_device_id: Seq<char>,
    activation: VulkanDistributedActivationSlotModel,
) -> ActivationKeyModel {
    match activation.storage {
        VulkanDistributedActivationStorageModel::ActivationSlot => (
            0,
            (0, (owner_device_id, (activation.component_id, (Seq::empty(), activation.slot)))),
        ),
        VulkanDistributedActivationStorageModel::BoundaryInput => (
            1,
            (0, (owner_device_id, (activation.component_id, (activation.signal_id, 0)))),
        ),
        VulkanDistributedActivationStorageModel::BoundaryOutput => (
            2,
            (0, (owner_device_id, (activation.component_id, (activation.signal_id, 0)))),
        ),
        VulkanDistributedActivationStorageModel::Edge {
            edge_index,
            owner_device_id: edge_owner,
        } => (3, (edge_index, (edge_owner, (Seq::empty(), (Seq::empty(), 0))))),
    }
}

pub fn distributed_activation_allocation_key(
    dispatch_owner_device_id: &String,
    activation: &VulkanDistributedActivationSlot,
) -> (key: ActivationKey)
    ensures
        key.deep_view() == activation_key(dispatch_owner_device_id@, activation.deep_view()),
{
    match &activation.storage {
        VulkanDistributedActivationStorage::ActivationSlot => (
            0,
            (
                0,
                (
                    dispatch_owner_device_id.clone(),
                    (activation.component_id.clone(), (String::new(), activation.slot)),
                ),
            ),
        ),
        VulkanDistributedActivationStorage::BoundaryInput => (
            1,
            (
                0,
                (
                    dispatch_owner_device_id.clone(),
                    (activation.component_id.clone(), (activation.signal_id.clone(), 0)),
                ),
            ),
        ),
        VulkanDistributedActivationStorage::BoundaryOutput => (
            2,
            (
                0,
                (
                    dispatch_owner_device_id.clone(),
                    (activation.component_id.clone(), (activation.signal_id.clone(), 0)),
                ),
            ),
        ),
        VulkanDistributedActivationStorage::Edge { edge_index, owner_device_id } => (
            3,
            (*edge_index, (owner_device_id.clone(), (String::new(), (String::new(), 0)))),
        ),
    }
}

/// The identity of a shared activation, or the text of the error.
pub open spec fn allocation_identity(
    allocation: VulkanDistributedActivationBufferAllocationModel,
) -> Result<ActivationKeyModel, Seq<char>> {
    let owner = allocation.owner_device_id;
    let component = allocation.component_id;
    match allocation.storage {
        VulkanDistributedActivationStorageModel::ActivationSlot => Ok(
            (0, (0, (owner, (component, (Seq::empty(), allocation.slot))))),
        ),
        VulkanDistributedActivationStorageModel::BoundaryInput => if allocation.signal_ids.len()
            != 1 {
            Err("distributed boundary-input allocation requires exactly one signal identity"@)
        } else {
            Ok((1, (0, (owner, (component, (allocation.signal_ids[0], 0))))))
        },
        VulkanDistributedActivationStorageModel::BoundaryOutput => if allocation.signal_ids.len()
            != 1 {
            Err("distributed boundary-output allocation requires exactly one signal identity"@)
        } else {
            Ok((2, (0, (owner, (component, (allocation.signal_ids[0], 0))))))
        },
        VulkanDistributedActivationStorageModel::Edge {
            edge_index,
            owner_device_id: edge_owner,
        } => if edge_owner != owner {
            Err("distributed edge allocation disagrees with its embedded owner"@)
        } else {
            Ok((3, (edge_index, (edge_owner, (Seq::empty(), (Seq::empty(), 0))))))
        },
    }
}

pub fn distributed_activation_buffer_allocation_key(
    allocation: &VulkanDistributedActivationBufferAllocation,
) -> (outcome: Result<ActivationKey, VulkanDistributedPlanError>)
    ensures
        plan_agrees(outcome, allocation_identity(allocation.deep_view())),
{
    match &allocation.storage {
        VulkanDistributedActivationStorage::ActivationSlot => Ok(
            (
                0,
                (
                    0,
                    (
                        allocation.owner_device_id.clone(),
                        (allocation.component_id.clone(), (String::new(), allocation.slot)),
                    ),
                ),
            ),
        ),
        VulkanDistributedActivationStorage::BoundaryInput => {
            if allocation.signal_ids.len() != 1 {
                return Err(
                    VulkanDistributedPlanError(
                        "distributed boundary-input allocation requires exactly one signal identity".to_owned(),
                    ),
                );
            }
            assert(allocation.deep_view().signal_ids[0] == allocation.signal_ids@[0]@);
            Ok(
                (
                    1,
                    (
                        0,
                        (
                            allocation.owner_device_id.clone(),
                            (
                                allocation.component_id.clone(),
                                (allocation.signal_ids[0].clone(), 0),
                            ),
                        ),
                    ),
                ),
            )
        },
        VulkanDistributedActivationStorage::BoundaryOutput => {
            if allocation.signal_ids.len() != 1 {
                return Err(
                    VulkanDistributedPlanError(
                        "distributed boundary-output allocation requires exactly one signal identity".to_owned(),
                    ),
                );
            }
            assert(allocation.deep_view().signal_ids[0] == allocation.signal_ids@[0]@);
            Ok(
                (
                    2,
                    (
                        0,
                        (
                            allocation.owner_device_id.clone(),
                            (
                                allocation.component_id.clone(),
                                (allocation.signal_ids[0].clone(), 0),
                            ),
                        ),
                    ),
                ),
            )
        },
        VulkanDistributedActivationStorage::Edge { edge_index, owner_device_id } => {
            if *owner_device_id != allocation.owner_device_id {
                return Err(
                    VulkanDistributedPlanError(
                        "distributed edge allocation disagrees with its embedded owner".to_owned(),
                    ),
                );
            }
            Ok(
                (
                    3,
                    (*edge_index, (owner_device_id.clone(), (String::new(), (String::new(), 0)))),
                ),
            )
        },
    }
}

/// The allocation holds an activation of a dispatch.
pub open spec fn allocation_matches(
    owner_device_id: Seq<char>,
    activation: VulkanDistributedActivationSlotModel,
    allocation: VulkanDistributedActivationBufferAllocationModel,
) -> bool {
    &&& allocation.storage == activation.storage
    &&& match activation.storage {
        VulkanDistributedActivationStorageModel::ActivationSlot => allocation.owner_device_id
            == owner_device_id && allocation.component_id == activation.component_id
            && allocation.slot == activation.slot,
        VulkanDistributedActivationStorageModel::Edge {
            edge_index: _,
            owner_device_id: edge_owner,
        } => allocation.owner_device_id == edge_owner,
        _ => allocation.owner_device_id == owner_device_id && allocation.component_id
            == activation.component_id && allocation.signal_ids.contains(activation.signal_id),
    }
}

pub fn distributed_activation_allocation_matches(
    dispatch_owner_device_id: &str,
    activation: &VulkanDistributedActivationSlot,
    allocation: &VulkanDistributedActivationBufferAllocation,
) -> (result: bool)
    ensures
        result == allocation_matches(
            dispatch_owner_device_id@,
            activation.deep_view(),
            allocation.deep_view(),
        ),
{
    if !allocation.storage.same(&activation.storage) {
        return false;
    }
    match &activation.storage {
        VulkanDistributedActivationStorage::ActivationSlot => allocation.owner_device_id
            == dispatch_owner_device_id.to_owned() && allocation.component_id
            == activation.component_id && allocation.slot == activation.slot,
        VulkanDistributedActivationStorage::Edge { edge_index: _, owner_device_id } =>
            allocation.owner_device_id == *owner_device_id,
        _ => allocation.owner_device_id == dispatch_owner_device_id.to_owned()
            && allocation.component_id == activation.component_id && holds(
            &allocation.signal_ids,
            &activation.signal_id,
        ),
    }
}

/// A shared activation of which nothing is collected yet.
pub open spec fn fresh_activation(
    owner_device_id: Seq<char>,
    activation: VulkanDistributedActivationSlotModel,
) -> SharedActivationModel {
    SharedActivationModel {
        storage: activation.storage,
        owner_device_id: activation_owner(owner_device_id, activation),
        component_id: activation.component_id,
        slot: activation.slot,
        byte_capacity: activation.byte_capacity,
        signals: Set::empty(),
        devices: Set::empty(),
        input_use_count: 0,
        output_use_count: 0,
    }
}

/// The name of an activation in messages.
pub open spec fn slot_name(activation: VulkanDistributedActivationSlotModel) -> Seq<char> {
    activation.component_id + ".slot_"@ + decimal_text(activation.slot as nat)
}

fn name_slot(activation: &VulkanDistributedActivationSlot) -> (name: String)
    ensures
        name@ == slot_name(activation.deep_view()),
{
    join3(activation.component_id.as_str(), ".slot_", decimal(activation.slot).as_str())
}

/// Adds a use of an activation by a dispatch, or says why it cannot be shared.
pub open spec fn used_activation(
    found: Map<ActivationKeyModel, SharedActivationModel>,
    owner_device_id: Seq<char>,
    activation: VulkanDistributedActivationSlotModel,
    participants: Set<Seq<char>>,
    access: VulkanDistributedActivationAccess,
) -> Result<Map<ActivationKeyModel, SharedActivationModel>, Seq<char>> {
    let key = activation_key(owner_device_id, activation);
    let owner = activation_owner(owner_device_id, activation);
    let before = if found.contains_key(key) {
        found[key]
    } else {
        fresh_activation(owner_device_id, activation)
    };
    if activation.byte_capacity == 0 {
        Err("distributed activation "@ + slot_name(activation) + " has zero capacity"@)
    } else if activation.signal_byte_capacity == 0 || activation.signal_byte_capacity
        > activation.byte_capacity {
        Err(
            "distributed activation "@ + slot_name(activation) + " has signal "@ + debug_text(
                activation.signal_id,
            ) + " capacity "@ + decimal_text(activation.signal_byte_capacity as nat)
                + " outside its "@ + decimal_text(activation.byte_capacity as nat)
                + "-byte slot"@,
        )
    } else if before.storage != activation.storage || before.owner_device_id != owner {
        Err(
            "distributed activation "@ + slot_name(activation) + " maps to conflicting storage"@,
        )
    } else if before.byte_capacity != activation.byte_capacity {
        Err(
            "distributed activation "@ + slot_name(activation) + " has conflicting capacities "@
                + decimal_text(before.byte_capacity as nat) + " and "@ + decimal_text(
                activation.byte_capacity as nat,
            ),
        )
    } else if access is Input && before.input_use_count + 1 > usize::MAX {
        Err("distributed activation input use count overflowed"@)
    } else if access is Output && before.output_use_count + 1 > usize::MAX {
        Err("distributed activation output use count overflowed"@)
    } else {
        Ok(
            found.insert(
                key,
                SharedActivationModel {
                    signals: before.signals.insert(activation.signal_id),
                    devices: before.devices.union(participants).insert(owner),
                    input_use_count: if access is Input {
                        (before.input_use_count + 1) as usize
                    } else {
                        before.input_use_count
                    },
                    output_use_count: if access is Output {
                        (before.output_use_count + 1) as usize
                    } else {
                        before.output_use_count
                    },
                    ..before
                },
            ),
        )
    }
}

/// Adds a use of an activation by a dispatch; an error leaves what was collected as it was.
pub fn accumulate_activation_allocation(
    allocations: &mut OrderedMap<ActivationKey, SharedActivation>,
    owner_device_id: &String,
    activation: &VulkanDistributedActivationSlot,
    participant_device_ids: &OrderedSet<String>,
    access: VulkanDistributedActivationAccess,
) -> (outcome: Result<(), VulkanDistributedPlanError>)
    ensures
        match outcome {
            Ok(_) => used_activation(
                old(allocations).deep_view(),
                owner_device_id@,
                activation.deep_view(),
                participant_device_ids.deep_view(),
                access,
            ) == Ok::<Map<ActivationKeyModel, SharedActivationModel>, Seq<char>>(
                final(allocations).deep_view(),
            ),
            Err(error) => used_activation(
                old(allocations).deep_view(),
                owner_device_id@,
                activation.deep_view(),
                participant_device_ids.deep_view(),
                access,
            ) == Err::<Map<ActivationKeyModel, SharedActivationModel>, Seq<char>>(error.0@)
                && final(allocations).deep_view() == old(allocations).deep_view(),
        },
{
    if activation.byte_capacity == 0 {
        return Err(
            VulkanDistributedPlanError(
                join3(
                    "distributed activation ",
                    name_slot(activation).as_str(),
                    " has zero capacity",
                ),
            ),
        );
    }
    if activation.signal_byte_capacity == 0 || activation.signal_byte_capacity
        > activation.byte_capacity {
        return Err(
            VulkanDistributedPlanError(
                crate::text::join9(
                    "distributed activation ",
                    name_slot(activation).as_str(),
                    " has signal ",
                    quoted(activation.signal_id.as_str()).as_str(),
                    " capacity ",
                    decimal(activation.signal_byte_capacity).as_str(),
                    " outside its ",
                    decimal(activation.byte_capacity).as_str(),
                    "-byte slot",
                ),
            ),
        );
    }
    let key = distributed_activation_allocation_key(owner_device_id, activation);
    let owner = distributed_activation_owner_device_id(owner_device_id, activation);
    let mut allocation: SharedActivation = match allocations.get(&key) {
        Some(found) => found.duplicate(),
        None => SharedActivation {
            storage: activation.storage.duplicate(),
            owner_device_id: owner.clone(),
            component_id: activation.component_id.clone(),
            slot: activation.slot,
            byte_capacity: activation.byte_capacity,
            signals: OrderedSet::new(),
            devices: OrderedSet::new(),
            input_use_count: 0,
            output_use_count: 0,
        },
    };
    if !allocation.storage.same(&activation.storage) || allocation.owner_device_id != owner {
        return Err(
            VulkanDistributedPlanError(
                join3(
                    "distributed activation ",
                    name_slot(activation).as_str(),
                    " maps to conflicting storage",
                ),
            ),
        );
    }
    if allocation.byte_capacity != activation.byte_capacity {
        return Err(
            VulkanDistributedPlanError(
                join6(
                    "distributed activation ",
                    name_slot(activation).as_str(),
                    " has conflicting capacities ",
                    decimal(allocation.byte_capacity).as_str(),
                    " and ",
                    decimal(activation.byte_capacity).as_str(),
                ),
            ),
        );
    }
    allocation.signals.insert(activation.signal_id.clone());
    allocation.devices.unite(participant_device_ids);
    allocation.devices.insert(owner);
    match access {
        VulkanDistributedActivationAccess::Input =>
            match allocation.input_use_count.checked_add(1) {
                None => {
                    return Err(
                        VulkanDistributedPlanError(
                            "distributed activation input use count overflowed".to_owned(),
                        ),
                    );
                },
                Some(count) => {
                    allocation.input_use_count = count;
                },
            },
        VulkanDistributedActivationAccess::Output => match allocation.output_use_count.checked_add(
            1,
        ) {
            None => {
                return Err(
                    VulkanDistributedPlanError(
                        "distributed activation output use count overflowed".to_owned(),
                    ),
                );
            },
            Some(count) => {
                allocation.output_use_count = count;
            },
        },
    }
    allocations.insert(key, allocation);
    Ok(())
}

} // verus!
