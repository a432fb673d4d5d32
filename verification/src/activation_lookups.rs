//! Finding the activations of a plan, and the buffers that hold them.
use vstd::prelude::*;

use crate::activation_buffers::{
    VulkanActivationSlotBufferOverride, VulkanActivationSlotBufferOverrideModel,
    VulkanDistributedActivationBuffer, VulkanDistributedActivationBufferModel,
    VulkanDistributedActivationBuffers, VulkanDistributedActivationBuffersModel,
    VulkanDistributedPrivateIntermediateBuffer, VulkanDistributedPrivateIntermediateBufferModel,
    VulkanDistributedReductionBuffer, VulkanDistributedReductionBufferModel,
    VulkanModelBoundaryBufferOverride, VulkanModelBoundaryBufferOverrideModel,
    VulkanModelBoundaryDirection,
};
use crate::activation_plans::{
    allocation_matches, distributed_activation_allocation_matches,
    VulkanDistributedActivationBufferAllocation, VulkanDistributedActivationBufferAllocationModel,
    VulkanDistributedActivationBufferPlan, VulkanDistributedPrivateIntermediateBufferAllocation,
    VulkanDistributedPrivateIntermediateBufferAllocationModel,
    VulkanDistributedReductionBufferAllocation, VulkanDistributedReductionBufferAllocationModel,
};
use crate::errors::VulkanDistributedActivationBufferError;
use crate::execution_plans::{
    VulkanDistributedActivationSlot, VulkanDistributedActivationSlotModel,
    VulkanDistributedActivationStorage, VulkanDistributedActivationStorageModel,
};
use crate::ordered::OrderedSet;
use crate::resident::VulkanResidentBuffer;
use crate::sequences::{append, checked_sum, find_from, is_checked, sum_of};
use crate::text::{decimal, decimal_text, join9};
use crate::values::PlainValue;

verus! {

/// What was found is the expected value.
pub open spec fn found_as<T: DeepView>(found: Option<&T>, expected: Option<T::V>) -> bool {
    match found {
        Some(value) => expected == Some(value.deep_view()),
        None => expected is None,
    }
}

/// The allocation holds an activation slot.
pub open spec fn is_slot(
    owner_device_id: Seq<char>,
    component_id: Seq<char>,
    slot: usize,
) -> spec_fn(VulkanDistributedActivationBufferAllocationModel) -> bool {
    |allocation: VulkanDistributedActivationBufferAllocationModel|
        allocation.storage is ActivationSlot && allocation.owner_device_id == owner_device_id
            && allocation.component_id == component_id && allocation.slot == slot
}

/// The allocation holds a graph edge.
pub open spec fn is_edge_of(edge_index: usize) -> spec_fn(
    VulkanDistributedActivationBufferAllocationModel,
) -> bool {
    |allocation: VulkanDistributedActivationBufferAllocationModel|
        allocation.storage is Edge && allocation.storage->edge_index == edge_index
}

/// The allocation holds the partial outputs of a dispatch.
pub open spec fn is_reduction_of(
    owner_device_id: Seq<char>,
    dispatch_index: usize,
) -> spec_fn(VulkanDistributedReductionBufferAllocationModel) -> bool {
    |allocation: VulkanDistributedReductionBufferAllocationModel|
        allocation.owner_device_id == owner_device_id && allocation.dispatch_index
            == dispatch_index
}

/// The allocation holds what one dispatch hands to another.
pub open spec fn is_handoff_of(
    producer: usize,
    consumer: usize,
) -> spec_fn(VulkanDistributedPrivateIntermediateBufferAllocationModel) -> bool {
    |allocation: VulkanDistributedPrivateIntermediateBufferAllocationModel|
        allocation.producer_dispatch_index == producer && allocation.consumer_dispatch_index
            == consumer
}

fn holds_edge(storage: &VulkanDistributedActivationStorage, edge_index: usize) -> (result: bool)
    ensures
        result == (storage.deep_view() is Edge && storage.deep_view()->edge_index == edge_index),
{
    match storage {
        VulkanDistributedActivationStorage::Edge { edge_index: candidate, .. } => *candidate
            == edge_index,
        _ => false,
    }
}

fn holds_slot(
    allocation: &VulkanDistributedActivationBufferAllocation,
    owner_device_id: &str,
    component_id: &str,
    slot: usize,
) -> (result: bool)
    ensures
        result == is_slot(owner_device_id@, component_id@, slot)(allocation.deep_view()),
{
    match allocation.storage {
        VulkanDistributedActivationStorage::ActivationSlot => allocation.owner_device_id
            == owner_device_id.to_owned() && allocation.component_id == component_id.to_owned()
            && allocation.slot == slot,
        _ => false,
    }
}

impl VulkanDistributedActivationBufferPlan {
    /// The allocation of an activation slot.
    pub fn allocation(
        &self,
        owner_device_id: &str,
        component_id: &str,
        slot: usize,
    ) -> (found: Option<&VulkanDistributedActivationBufferAllocation>)
        ensures
            found_as(
                found,
                find_from(
                    self.deep_view().allocations,
                    0,
                    is_slot(owner_device_id@, component_id@, slot),
                ),
            ),
    {
        let ghost all = self.deep_view().allocations;
        let ghost condition = is_slot(owner_device_id@, component_id@, slot);
        for index in 0..self.allocations.len()
            invariant
                all == self.allocations.deep_view(),
                condition == is_slot(owner_device_id@, component_id@, slot),
                find_from(all, 0, condition) == find_from(all, index as nat, condition),
        {
            let candidate = &self.allocations[index];
            assert(all[index as int] == candidate.deep_view());
            if holds_slot(candidate, owner_device_id, component_id, slot) {
                return Some(candidate);
            }
        }
        None
    }

    /// The allocation of a graph edge.
    pub fn edge_allocation(
        &self,
        edge_index: usize,
    ) -> (found: Option<&VulkanDistributedActivationBufferAllocation>)
        ensures
            found_as(found, find_from(self.deep_view().allocations, 0, is_edge_of(edge_index))),
    {
        let ghost all = self.deep_view().allocations;
        let ghost condition = is_edge_of(edge_index);
        for index in 0..self.allocations.len()
            invariant
                all == self.allocations.deep_view(),
                condition == is_edge_of(edge_index),
                find_from(all, 0, condition) == find_from(all, index as nat, condition),
        {
            let candidate = &self.allocations[index];
            assert(all[index as int] == candidate.deep_view());
            if holds_edge(&candidate.storage, edge_index) {
                return Some(candidate);
            }
        }
        None
    }

    /// The allocation of the partial outputs of a dispatch.
    pub fn reduction_allocation(
        &self,
        owner_device_id: &str,
        dispatch_index: usize,
    ) -> (found: Option<&VulkanDistributedReductionBufferAllocation>)
        ensures
            found_as(
                found,
                find_from(
                    self.deep_view().reduction_allocations,
                    0,
                    is_reduction_of(owner_device_id@, dispatch_index),
                ),
            ),
    {
        let ghost all = self.deep_view().reduction_allocations;
        let ghost condition = is_reduction_of(owner_device_id@, dispatch_index);
        for index in 0..self.reduction_allocations.len()
            invariant
                all == self.reduction_allocations.deep_view(),
                condition == is_reduction_of(owner_device_id@, dispatch_index),
                find_from(all, 0, condition) == find_from(all, index as nat, condition),
        {
            let candidate = &self.reduction_allocations[index];
            assert(all[index as int] == candidate.deep_view());
            if candidate.owner_device_id == owner_device_id.to_owned()
                && candidate.dispatch_index == dispatch_index {
                return Some(candidate);
            }
        }
        None
    }

    /// The allocation of what one dispatch hands to another.
    pub fn private_intermediate_allocation(
        &self,
        producer_dispatch_index: usize,
        consumer_dispatch_index: usize,
    ) -> (found: Option<&VulkanDistributedPrivateIntermediateBufferAllocation>)
        ensures
            found_as(
                found,
                find_from(
                    self.deep_view().private_intermediate_allocations,
                    0,
                    is_handoff_of(producer_dispatch_index, consumer_dispatch_index),
                ),
            ),
    {
        let ghost all = self.deep_view().private_intermediate_allocations;
        let ghost condition = is_handoff_of(producer_dispatch_index, consumer_dispatch_index);
        for index in 0..self.private_intermediate_allocations.len()
            invariant
                all == self.private_intermediate_allocations.deep_view(),
                condition == is_handoff_of(producer_dispatch_index, consumer_dispatch_index),
                find_from(all, 0, condition) == find_from(all, index as nat, condition),
        {
            let candidate = &self.private_intermediate_allocations[index];
            assert(all[index as int] == candidate.deep_view());
            if candidate.producer_dispatch_index == producer_dispatch_index
                && candidate.consumer_dispatch_index == consumer_dispatch_index {
                return Some(candidate);
            }
        }
        None
    }
}

/// The buffer holds an activation of a dispatch.
pub open spec fn buffer_matches(
    owner_device_id: Seq<char>,
    activation: VulkanDistributedActivationSlotModel,
) -> spec_fn(VulkanDistributedActivationBufferModel) -> bool {
    |buffer: VulkanDistributedActivationBufferModel|
        allocation_matches(owner_device_id, activation, buffer.planned)
}

/// The buffer holds a graph edge.
pub open spec fn buffer_is_edge(edge_index: usize) -> spec_fn(
    VulkanDistributedActivationBufferModel,
) -> bool {
    |buffer: VulkanDistributedActivationBufferModel|
        is_edge_of(edge_index)(buffer.planned)
}

/// The buffer holds the partial outputs of a dispatch.
pub open spec fn buffer_is_reduction(
    owner_device_id: Seq<char>,
    dispatch_index: usize,
) -> spec_fn(VulkanDistributedReductionBufferModel) -> bool {
    |buffer: VulkanDistributedReductionBufferModel|
        is_reduction_of(owner_device_id, dispatch_index)(buffer.planned)
}

/// The buffer holds what one dispatch hands to another.
pub open spec fn buffer_is_handoff(
    producer: usize,
    consumer: usize,
) -> spec_fn(VulkanDistributedPrivateIntermediateBufferModel) -> bool {
    |buffer: VulkanDistributedPrivateIntermediateBufferModel|
        is_handoff_of(producer, consumer)(buffer.planned)
}

/// What a device sees of a buffer.
pub open spec fn seen_by(
    device_buffers: Map<Seq<char>, VulkanResidentBuffer>,
    device_id: Seq<char>,
) -> Option<VulkanResidentBuffer> {
    if device_buffers.contains_key(device_id) {
        Some(device_buffers[device_id])
    } else {
        None
    }
}

/// What a device sees of an activation of a dispatch.
pub open spec fn activation_seen(
    buffers: VulkanDistributedActivationBuffersModel,
    owner_device_id: Seq<char>,
    activation: VulkanDistributedActivationSlotModel,
    device_id: Seq<char>,
) -> Option<VulkanResidentBuffer> {
    match find_from(buffers.allocations, 0, buffer_matches(owner_device_id, activation)) {
        Some(buffer) => seen_by(buffer.device_buffers, device_id),
        None => None,
    }
}

/// What a device sees of a graph edge.
pub open spec fn edge_seen(
    buffers: VulkanDistributedActivationBuffersModel,
    edge_index: usize,
    device_id: Seq<char>,
) -> Option<VulkanResidentBuffer> {
    match find_from(buffers.allocations, 0, buffer_is_edge(edge_index)) {
        Some(buffer) => seen_by(buffer.device_buffers, device_id),
        None => None,
    }
}

/// What a device sees of the partial outputs of a dispatch.
pub open spec fn reduction_seen(
    buffers: VulkanDistributedActivationBuffersModel,
    owner_device_id: Seq<char>,
    dispatch_index: usize,
    device_id: Seq<char>,
) -> Option<VulkanResidentBuffer> {
    match find_from(
        buffers.reduction_allocations,
        0,
        buffer_is_reduction(owner_device_id, dispatch_index),
    ) {
        Some(buffer) => seen_by(buffer.device_buffers, device_id),
        None => None,
    }
}

/// What a device keeps of what one dispatch hands to another.
pub open spec fn handoff_seen(
    buffers: VulkanDistributedActivationBuffersModel,
    producer: usize,
    consumer: usize,
    device_id: Seq<char>,
) -> Option<VulkanResidentBuffer> {
    match find_from(
        buffers.private_intermediate_allocations,
        0,
        buffer_is_handoff(producer, consumer),
    ) {
        Some(buffer) => seen_by(buffer.device_buffers, device_id),
        None => None,
    }
}

impl VulkanDistributedActivationBuffers {
    /// The buffer of a graph edge.
    pub fn edge_allocation(
        &self,
        edge_index: usize,
    ) -> (found: Option<&VulkanDistributedActivationBuffer>)
        ensures
            found_as(found, find_from(self.deep_view().allocations, 0, buffer_is_edge(edge_index))),
    {
        let ghost all = self.deep_view().allocations;
        let ghost condition = buffer_is_edge(edge_index);
        for index in 0..self.allocations.len()
            invariant
                all == self.allocations.deep_view(),
                condition == buffer_is_edge(edge_index),
                find_from(all, 0, condition) == find_from(all, index as nat, condition),
        {
            let candidate = &self.allocations[index];
            assert(all[index as int] == candidate.deep_view());
            if holds_edge(&candidate.planned.storage, edge_index) {
                return Some(candidate);
            }
        }
        None
    }

    /// The shared buffer of an activation of a dispatch.
    fn matching_allocation(
        &self,
        dispatch_owner_device_id: &str,
        activation: &VulkanDistributedActivationSlot,
    ) -> (found: Option<&VulkanDistributedActivationBuffer>)
        ensures
            found_as(
                found,
                find_from(
                    self.deep_view().allocations,
                    0,
                    buffer_matches(dispatch_owner_device_id@, activation.deep_view()),
                ),
            ),
    {
        let ghost all = self.deep_view().allocations;
        let ghost condition = buffer_matches(dispatch_owner_device_id@, activation.deep_view());
        for index in 0..self.allocations.len()
            invariant
                all == self.allocations.deep_view(),
                condition == buffer_matches(dispatch_owner_device_id@, activation.deep_view()),
                find_from(all, 0, condition) == find_from(all, index as nat, condition),
        {
            let candidate = &self.allocations[index];
            assert(all[index as int] == candidate.deep_view());
            if distributed_activation_allocation_matches(
                dispatch_owner_device_id,
                activation,
                &candidate.planned,
            ) {
                return Some(candidate);
            }
        }
        None
    }

    /// The buffer of the partial outputs of a dispatch.
    fn matching_reduction(
        &self,
        owner_device_id: &str,
        dispatch_index: usize,
    ) -> (found: Option<&VulkanDistributedReductionBuffer>)
        ensures
            found_as(
                found,
                find_from(
                    self.deep_view().reduction_allocations,
                    0,
                    buffer_is_reduction(owner_device_id@, dispatch_index),
                ),
            ),
    {
        let ghost all = self.deep_view().reduction_allocations;
        let ghost condition = buffer_is_reduction(owner_device_id@, dispatch_index);
        for index in 0..self.reduction_allocations.len()
            invariant
                all == self.reduction_allocations.deep_view(),
                condition == buffer_is_reduction(owner_device_id@, dispatch_index),
                find_from(all, 0, condition) == find_from(all, index as nat, condition),
        {
            let candidate = &self.reduction_allocations[index];
            assert(all[index as int] == candidate.deep_view());
            if candidate.planned.owner_device_id == owner_device_id.to_owned()
                && candidate.planned.dispatch_index == dispatch_index {
                return Some(candidate);
            }
        }
        None
    }

    /// The buffers of what one dispatch hands to another.
    fn matching_handoff(
        &self,
        producer_dispatch_index: usize,
        consumer_dispatch_index: usize,
    ) -> (found: Option<&VulkanDistributedPrivateIntermediateBuffer>)
        ensures
            found_as(
                found,
                find_from(
                    self.deep_view().private_intermediate_allocations,
                    0,
                    buffer_is_handoff(producer_dispatch_index, consumer_dispatch_index),
                ),
            ),
    {
        let ghost all = self.deep_view().private_intermediate_allocations;
        let ghost condition = buffer_is_handoff(producer_dispatch_index, consumer_dispatch_index);
        for index in 0..self.private_intermediate_allocations.len()
            invariant
                all == self.private_intermediate_allocations.deep_view(),
                condition == buffer_is_handoff(producer_dispatch_index, consumer_dispatch_index),
                find_from(all, 0, condition) == find_from(all, index as nat, condition),
        {
            let candidate = &self.private_intermediate_allocations[index];
            assert(all[index as int] == candidate.deep_view());
            if candidate.planned.producer_dispatch_index == producer_dispatch_index
                && candidate.planned.consumer_dispatch_index == consumer_dispatch_index {
                return Some(candidate);
            }
        }
        None
    }

    /// What a device sees of an activation of a dispatch.
    pub fn activation_buffer(
        &self,
        dispatch_owner_device_id: &str,
        activation: &VulkanDistributedActivationSlot,
        device_id: &str,
    ) -> (found: Option<&VulkanResidentBuffer>)
        ensures
            found_as(
                found,
                activation_seen(
                    self.deep_view(),
                    dispatch_owner_device_id@,
                    activation.deep_view(),
                    device_id@,
                ),
            ),
    {
        match self.matching_allocation(dispatch_owner_device_id, activation) {
            Some(buffer) => buffer.device_buffers.get(&device_id.to_owned()),
            None => None,
        }
    }

    /// What a device sees of a graph edge.
    pub fn edge_buffer(
        &self,
        edge_index: usize,
        device_id: &str,
    ) -> (found: Option<&VulkanResidentBuffer>)
        ensures
            found_as(found, edge_seen(self.deep_view(), edge_index, device_id@)),
    {
        match self.edge_allocation(edge_index) {
            Some(buffer) => buffer.device_buffers.get(&device_id.to_owned()),
            None => None,
        }
    }

    /// What a device sees of the partial outputs of a dispatch.
    pub fn reduction_partial_buffer(
        &self,
        owner_device_id: &str,
        dispatch_index: usize,
        device_id: &str,
    ) -> (found: Option<&VulkanResidentBuffer>)
        ensures
            found_as(
                found,
                reduction_seen(self.deep_view(), owner_device_id@, dispatch_index, device_id@),
            ),
    {
        match self.matching_reduction(owner_device_id, dispatch_index) {
            Some(buffer) => buffer.device_buffers.get(&device_id.to_owned()),
            None => None,
        }
    }

    /// What a device keeps of what one dispatch hands to another.
    pub fn private_intermediate_buffer(
        &self,
        producer_dispatch_index: usize,
        consumer_dispatch_index: usize,
        device_id: &str,
    ) -> (found: Option<&VulkanResidentBuffer>)
        ensures
            found_as(
                found,
                handoff_seen(
                    self.deep_view(),
                    producer_dispatch_index,
                    consumer_dispatch_index,
                    device_id@,
                ),
            ),
    {
        match self.matching_handoff(producer_dispatch_index, consumer_dispatch_index) {
            Some(buffer) => buffer.device_buffers.get(&device_id.to_owned()),
            None => None,
        }
    }
}

/// The buffers that stand for the activation slots of an owner, in their order.
pub open spec fn slot_overrides(
    buffers: Seq<VulkanDistributedActivationBufferModel>,
    owner_device_id: Seq<char>,
) -> Seq<VulkanActivationSlotBufferOverrideModel>
    decreases buffers.len(),
{
    if buffers.len() == 0 {
        Seq::empty()
    } else {
        let earlier = slot_overrides(buffers.drop_last(), owner_device_id);
        let last = buffers.last();
        if last.planned.storage is ActivationSlot && last.planned.owner_device_id
            == owner_device_id && last.device_buffers.contains_key(owner_device_id) {
            earlier.push(
                VulkanActivationSlotBufferOverrideModel {
                    component_id: last.planned.component_id,
                    slot: last.planned.slot,
                    buffer: last.device_buffers[owner_device_id],
                },
            )
        } else {
            earlier
        }
    }
}

/// The side of the boundary on which the storage lies.
pub open spec fn boundary_side(storage: VulkanDistributedActivationStorageModel) -> Option<
    VulkanModelBoundaryDirection,
> {
    match storage {
        VulkanDistributedActivationStorageModel::BoundaryInput => Some(
            VulkanModelBoundaryDirection::Input,
        ),
        VulkanDistributedActivationStorageModel::BoundaryOutput => Some(
            VulkanModelBoundaryDirection::Output,
        ),
        _ => None,
    }
}

/// The buffers that stand for the boundary signals of an owner, in their order.
pub open spec fn boundary_overrides(
    buffers: Seq<VulkanDistributedActivationBufferModel>,
    owner_device_id: Seq<char>,
) -> Seq<VulkanModelBoundaryBufferOverrideModel>
    decreases buffers.len(),
{
    if buffers.len() == 0 {
        Seq::empty()
    } else {
        let earlier = boundary_overrides(buffers.drop_last(), owner_device_id);
        let last = buffers.last();
        if boundary_side(last.planned.storage) is Some && last.planned.owner_device_id
            == owner_device_id && last.device_buffers.contains_key(owner_device_id)
            && last.planned.signal_ids.len() > 0 {
            earlier.push(
                VulkanModelBoundaryBufferOverrideModel {
                    direction: boundary_side(last.planned.storage)->0,
                    component_id: last.planned.component_id,
                    signal_id: last.planned.signal_ids[0],
                    buffer: last.device_buffers[owner_device_id],
                },
            )
        } else {
            earlier
        }
    }
}

fn side_of(storage: &VulkanDistributedActivationStorage) -> (side: Option<
    VulkanModelBoundaryDirection,
>)
    ensures
        side == boundary_side(storage.deep_view()),
{
    match storage {
        VulkanDistributedActivationStorage::BoundaryInput => Some(
            VulkanModelBoundaryDirection::Input,
        ),
        VulkanDistributedActivationStorage::BoundaryOutput => Some(
            VulkanModelBoundaryDirection::Output,
        ),
        _ => None,
    }
}

fn is_slot_storage(storage: &VulkanDistributedActivationStorage) -> (result: bool)
    ensures
        result == (storage.deep_view() is ActivationSlot),
{
    match storage {
        VulkanDistributedActivationStorage::ActivationSlot => true,
        _ => false,
    }
}

impl VulkanDistributedActivationBuffers {
    /// The buffers that stand for the activation slots of an owner.
    pub fn activation_overrides_for_owner_device(&self, owner_device_id: &str) -> (overrides: Vec<
        VulkanActivationSlotBufferOverride,
    >)
        ensures
            overrides.deep_view() == slot_overrides(
                self.deep_view().allocations,
                owner_device_id@,
            ),
    {
        let ghost all = self.deep_view().allocations;
        let owner = owner_device_id.to_owned();
        let mut overrides: Vec<VulkanActivationSlotBufferOverride> = Vec::new();
        assert(overrides.deep_view() =~= slot_overrides(all.take(0), owner@));
        for index in 0..self.allocations.len()
            invariant
                all == self.allocations.deep_view(),
                overrides.deep_view() == slot_overrides(all.take(index as int), owner@),
        {
            let candidate = &self.allocations[index];
            assert(all[index as int] == candidate.deep_view());
            assert(all.take(index as int + 1).drop_last() =~= all.take(index as int));
            if is_slot_storage(&candidate.planned.storage) && candidate.planned.owner_device_id
                == owner {
                match candidate.device_buffers.get(&owner) {
                    Some(buffer) => {
                        append(
                            &mut overrides,
                            VulkanActivationSlotBufferOverride {
                                component_id: candidate.planned.component_id.clone(),
                                slot: candidate.planned.slot,
                                buffer: *buffer,
                            },
                        );
                    },
                    None => {},
                }
            }
        }
        assert(all.take(all.len() as int) =~= all);
        overrides
    }

    /// The buffers that stand for the boundary signals of an owner.
    pub fn boundary_overrides_for_owner_device(&self, owner_device_id: &str) -> (overrides: Vec<
        VulkanModelBoundaryBufferOverride,
    >)
        ensures
            overrides.deep_view() == boundary_overrides(
                self.deep_view().allocations,
                owner_device_id@,
            ),
    {
        let ghost all = self.deep_view().allocations;
        let owner = owner_device_id.to_owned();
        let mut overrides: Vec<VulkanModelBoundaryBufferOverride> = Vec::new();
        assert(overrides.deep_view() =~= boundary_overrides(all.take(0), owner@));
        for index in 0..self.allocations.len()
            invariant
                all == self.allocations.deep_view(),
                overrides.deep_view() == boundary_overrides(all.take(index as int), owner@),
        {
            let candidate = &self.allocations[index];
            assert(all[index as int] == candidate.deep_view());
            assert(all.take(index as int + 1).drop_last() =~= all.take(index as int));
            if candidate.planned.owner_device_id == owner && candidate.planned.signal_ids.len()
                > 0 {
                assert(candidate.deep_view().planned.signal_ids[0]
                    == candidate.planned.signal_ids@[0]@);
                match (side_of(&candidate.planned.storage), candidate.device_buffers.get(&owner)) {
                    (Some(direction), Some(buffer)) => {
                        append(
                            &mut overrides,
                            VulkanModelBoundaryBufferOverride {
                                direction,
                                component_id: candidate.planned.component_id.clone(),
                                signal_id: candidate.planned.signal_ids[0].clone(),
                                buffer: *buffer,
                            },
                        );
                    },
                    _ => {},
                }
            }
        }
        assert(all.take(all.len() as int) =~= all);
        overrides
    }
}

/// Why the devices that hold an activation are not those that it was planned for.
pub open spec fn final_devices_fault(
    planned: VulkanDistributedActivationBufferAllocationModel,
    actual: Set<Seq<char>>,
) -> Option<Seq<char>> {
    if actual != planned.device_ids.to_set() || !planned.device_ids.no_duplicates() {
        Some(
            "distributed activation "@ + planned.component_id + ".slot_"@ + decimal_text(
                planned.slot as nat,
            ) + " finalized "@ + decimal_text(actual.len()) + " buffers for "@ + decimal_text(
                planned.device_ids.len(),
            ) + " declared devices"@,
        )
    } else {
        None
    }
}

/// The devices that hold an activation are those that it was planned for.
pub fn validate_final_distributed_activation_devices(
    planned: &VulkanDistributedActivationBufferAllocation,
    actual_device_ids: &Vec<String>,
) -> (outcome: Result<(), VulkanDistributedActivationBufferError>)
    ensures
        match outcome {
            Ok(_) => final_devices_fault(
                planned.deep_view(),
                actual_device_ids.deep_view().to_set(),
            ) is None,
            Err(error) => final_devices_fault(
                planned.deep_view(),
                actual_device_ids.deep_view().to_set(),
            ) == Some(error.0@),
        },
{
    let actual = OrderedSet::from_values(actual_device_ids);
    let expected = OrderedSet::from_values(&planned.device_ids);
    let count: usize = actual.len();
    if !actual.same(&expected) || !crate::activation_building::are_distinct(&planned.device_ids) {
        return Err(
            VulkanDistributedActivationBufferError(
                join9(
                    "distributed activation ",
                    planned.component_id.as_str(),
                    ".slot_",
                    decimal(planned.slot).as_str(),
                    " finalized ",
                    decimal(count).as_str(),
                    " buffers for ",
                    decimal(planned.device_ids.len()).as_str(),
                    " declared devices",
                ),
            ),
        );
    }
    Ok(())
}

/// The first activation from an index on that does not have its devices makes an
/// error.
pub open spec fn final_fault_from(
    buffers: Seq<VulkanDistributedActivationBufferModel>,
    index: nat,
) -> Option<Seq<char>>
    decreases buffers.len() - index,
{
    if index >= buffers.len() {
        None
    } else {
        match final_devices_fault(
            buffers[index as int].planned,
            buffers[index as int].device_buffers.dom(),
        ) {
            Some(message) => Some(message),
            None => final_fault_from(buffers, index + 1),
        }
    }
}

/// The devices that hold a shared activation.
pub open spec fn holding_devices() -> spec_fn(VulkanDistributedActivationBufferModel) -> nat {
    |buffer: VulkanDistributedActivationBufferModel| buffer.device_buffers.dom().len()
}

/// The devices that hold a reduction.
pub open spec fn reduction_holders() -> spec_fn(VulkanDistributedReductionBufferModel) -> nat {
    |buffer: VulkanDistributedReductionBufferModel| buffer.device_buffers.dom().len()
}

/// What finalizing makes of the buffers, or the text of the error.
pub open spec fn finalized(buffers: VulkanDistributedActivationBuffersModel) -> Result<
    VulkanDistributedActivationBuffersModel,
    Seq<char>,
> {
    let imports = sum_of(buffers.allocations, holding_devices()) + sum_of(
        buffers.reduction_allocations,
        reduction_holders(),
    );
    match final_fault_from(buffers.allocations, 0) {
        Some(message) => Err(message),
        None => if imports > usize::MAX {
            Err("final distributed activation import count overflowed"@)
        } else {
            Ok(
                VulkanDistributedActivationBuffersModel {
                    import_count: imports as usize,
                    ..buffers
                },
            )
        },
    }
}

fn count_holders(buffer: &VulkanDistributedActivationBuffer) -> (count: Option<usize>)
    ensures
        is_checked(count, holding_devices()(buffer.deep_view())),
{
    Some(buffer.device_buffers.len())
}

fn count_reduction_holders(buffer: &VulkanDistributedReductionBuffer) -> (count: Option<usize>)
    ensures
        is_checked(count, reduction_holders()(buffer.deep_view())),
{
    Some(buffer.device_buffers.len())
}

impl VulkanDistributedActivationBuffers {
    /// Checks that every activation has its devices, and counts them anew.
    pub fn finalize_deferred_graph_edges(&mut self) -> (outcome: Result<
        (),
        VulkanDistributedActivationBufferError,
    >)
        ensures
            match outcome {
                Ok(_) => finalized(old(self).deep_view()) == Ok::<
                    VulkanDistributedActivationBuffersModel,
                    Seq<char>,
                >(final(self).deep_view()),
                Err(error) => finalized(old(self).deep_view()) == Err::<
                    VulkanDistributedActivationBuffersModel,
                    Seq<char>,
                >(error.0@) && final(self).deep_view() == old(self).deep_view(),
            },
    {
        let ghost before = self.deep_view();
        let ghost all = before.allocations;
        for index in 0..self.allocations.len()
            invariant
                before == self.deep_view(),
                before == old(self).deep_view(),
                all == self.allocations.deep_view(),
                final_fault_from(all, 0) == final_fault_from(all, index as nat),
        {
            let buffer = &self.allocations[index];
            assert(all[index as int] == buffer.deep_view());
            let count: usize = buffer.device_buffers.len();
            let device_ids = buffer.device_buffers.to_keys();
            proof {
                crate::ordered::lemma_keys_listed::<String, VulkanResidentBuffer>(
                    buffer.device_buffers.deep_view(),
                );
            }
            match validate_final_distributed_activation_devices(&buffer.planned, &device_ids) {
                Err(error) => {
                    return Err(error);
                },
                Ok(_) => {},
            }
        }
        let holders = checked_sum(&self.allocations, count_holders, Ghost(holding_devices()));
        let reduction_holders = checked_sum(
            &self.reduction_allocations,
            count_reduction_holders,
            Ghost(reduction_holders()),
        );
        let imports: Option<usize> = match (holders, reduction_holders) {
            (Some(left), Some(right)) => left.checked_add(right),
            _ => None,
        };
        match imports {
            None => Err(
                VulkanDistributedActivationBufferError(
                    "final distributed activation import count overflowed".to_owned(),
                ),
            ),
            Some(count) => {
                self.import_count = count;
                Ok(())
            },
        }
    }
}

} // verus!
