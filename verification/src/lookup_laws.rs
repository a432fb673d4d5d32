//! Laws of looking up buffers, of the kinds of islands, and of replaying timelines.
use vstd::prelude::*;

use crate::activation_buffers::{
    VulkanActivationSlotBufferOverrideModel, VulkanDistributedActivationBufferModel,
    VulkanDistributedActivationBuffersModel, VulkanModelBoundaryBufferOverrideModel,
};
use crate::activation_lookups::{
    boundary_overrides, final_devices_fault, final_fault_from, finalized, slot_overrides,
};
use crate::contracts::ExecutionStrategy;
use crate::execution_observation::{island_kind, VulkanPhysicalExecutionIslandKind};
use crate::execution_plans::VulkanDistributedDispatchPlanModel;
use crate::timeline_replay::{
    indirect_range_fault, rebased, NextValues, VulkanTimelineSemaphoreReplayIdentity,
};

verus! {

/// The buffer is an activation slot of an owner that the owner sees.
pub open spec fn is_own_slot(
    buffer: VulkanDistributedActivationBufferModel,
    owner_device_id: Seq<char>,
) -> bool {
    &&& buffer.planned.storage is ActivationSlot
    &&& buffer.planned.owner_device_id == owner_device_id
    &&& buffer.device_buffers.contains_key(owner_device_id)
}

/// The override stands for a slot.
pub open spec fn stands_for_slot(
    buffer: VulkanDistributedActivationBufferModel,
    owner_device_id: Seq<char>,
    slot: VulkanActivationSlotBufferOverrideModel,
) -> bool {
    &&& is_own_slot(buffer, owner_device_id)
    &&& slot.component_id == buffer.planned.component_id
    &&& slot.slot == buffer.planned.slot
    &&& slot.buffer == buffer.device_buffers[owner_device_id]
}

/// Some override of a list stands for a slot.
pub open spec fn has_slot_override(
    overrides: Seq<VulkanActivationSlotBufferOverrideModel>,
    buffer: VulkanDistributedActivationBufferModel,
    owner_device_id: Seq<char>,
) -> bool {
    exists|k: int|
        0 <= k < overrides.len() && stands_for_slot(
            buffer,
            owner_device_id,
            #[trigger] overrides[k],
        )
}

/// An override stands for some slot of a list.
pub open spec fn is_slot_override(
    buffers: Seq<VulkanDistributedActivationBufferModel>,
    owner_device_id: Seq<char>,
    slot: VulkanActivationSlotBufferOverrideModel,
) -> bool {
    exists|b: int|
        0 <= b < buffers.len() && stands_for_slot(#[trigger] buffers[b], owner_device_id, slot)
}

/// An owner uses what it sees of every activation slot of its own, and of no other.
pub proof fn law_owners_use_their_own_slots(
    buffers: Seq<VulkanDistributedActivationBufferModel>,
    owner_device_id: Seq<char>,
)
    ensures
        forall|b: int|
            0 <= b < buffers.len() && is_own_slot(#[trigger] buffers[b], owner_device_id)
                ==> has_slot_override(
                slot_overrides(buffers, owner_device_id),
                buffers[b],
                owner_device_id,
            ),
        forall|k: int|
            0 <= k < slot_overrides(buffers, owner_device_id).len() ==> is_slot_override(
                buffers,
                owner_device_id,
                #[trigger] slot_overrides(buffers, owner_device_id)[k],
            ),
    decreases buffers.len(),
{
    if buffers.len() > 0 {
        let rest = buffers.drop_last();
        let last = buffers.len() - 1;
        law_owners_use_their_own_slots(rest, owner_device_id);
        let earlier = slot_overrides(rest, owner_device_id);
        let all = slot_overrides(buffers, owner_device_id);
        assert forall|b: int|
            0 <= b < buffers.len() && is_own_slot(#[trigger] buffers[b], owner_device_id) implies
            has_slot_override(all, buffers[b], owner_device_id) by {
            if b < last {
                assert(rest[b] == buffers[b]);
                assert(has_slot_override(earlier, buffers[b], owner_device_id));
                let k = choose|k: int|
                    0 <= k < earlier.len() && stands_for_slot(
                        buffers[b],
                        owner_device_id,
                        #[trigger] earlier[k],
                    );
                assert(all[k] == earlier[k]);
            } else {
                assert(stands_for_slot(buffers[b], owner_device_id, all[all.len() - 1]));
            }
        }
        assert forall|k: int| 0 <= k < all.len() implies is_slot_override(
            buffers,
            owner_device_id,
            #[trigger] all[k],
        ) by {
            if k < earlier.len() {
                assert(all[k] == earlier[k]);
                assert(is_slot_override(rest, owner_device_id, earlier[k]));
                let b = choose|b: int|
                    0 <= b < rest.len() && stands_for_slot(
                        #[trigger] rest[b],
                        owner_device_id,
                        earlier[k],
                    );
                assert(stands_for_slot(buffers[b], owner_device_id, all[k]));
            } else {
                assert(stands_for_slot(buffers[last], owner_device_id, all[k]));
            }
        }
    }
}

/// The override stands for a signal of the boundary of the model.
pub open spec fn stands_for_boundary(
    buffer: VulkanDistributedActivationBufferModel,
    owner_device_id: Seq<char>,
    boundary: VulkanModelBoundaryBufferOverrideModel,
) -> bool {
    &&& is_own_boundary(buffer, owner_device_id)
    &&& boundary.direction is Input <==> buffer.planned.storage is BoundaryInput
    &&& boundary.component_id == buffer.planned.component_id
    &&& boundary.signal_id == buffer.planned.signal_ids[0]
    &&& boundary.buffer == buffer.device_buffers[owner_device_id]
}

/// The buffer is a named signal of the boundary of the model that its owner sees.
pub open spec fn is_own_boundary(
    buffer: VulkanDistributedActivationBufferModel,
    owner_device_id: Seq<char>,
) -> bool {
    &&& buffer.planned.storage is BoundaryInput || buffer.planned.storage is BoundaryOutput
    &&& buffer.planned.owner_device_id == owner_device_id
    &&& buffer.device_buffers.contains_key(owner_device_id)
    &&& buffer.planned.signal_ids.len() > 0
}

/// Some override of a list stands for a signal.
pub open spec fn has_boundary_override(
    overrides: Seq<VulkanModelBoundaryBufferOverrideModel>,
    buffer: VulkanDistributedActivationBufferModel,
    owner_device_id: Seq<char>,
) -> bool {
    exists|k: int|
        0 <= k < overrides.len() && stands_for_boundary(
            buffer,
            owner_device_id,
            #[trigger] overrides[k],
        )
}

/// An override stands for some signal of a list.
pub open spec fn is_boundary_override(
    buffers: Seq<VulkanDistributedActivationBufferModel>,
    owner_device_id: Seq<char>,
    boundary: VulkanModelBoundaryBufferOverrideModel,
) -> bool {
    exists|b: int|
        0 <= b < buffers.len() && stands_for_boundary(
            #[trigger] buffers[b],
            owner_device_id,
            boundary,
        )
}

/// An owner uses what it sees of every signal of the boundary of the model that is its own,
/// inputs as inputs and outputs as outputs.
pub proof fn law_owners_use_their_own_boundaries(
    buffers: Seq<VulkanDistributedActivationBufferModel>,
    owner_device_id: Seq<char>,
)
    ensures
        forall|b: int|
            0 <= b < buffers.len() && is_own_boundary(#[trigger] buffers[b], owner_device_id)
                ==> has_boundary_override(
                boundary_overrides(buffers, owner_device_id),
                buffers[b],
                owner_device_id,
            ),
        forall|k: int|
            0 <= k < boundary_overrides(buffers, owner_device_id).len() ==> is_boundary_override(
                buffers,
                owner_device_id,
                #[trigger] boundary_overrides(buffers, owner_device_id)[k],
            ),
    decreases buffers.len(),
{
    if buffers.len() > 0 {
        let rest = buffers.drop_last();
        let last = buffers.len() - 1;
        law_owners_use_their_own_boundaries(rest, owner_device_id);
        let earlier = boundary_overrides(rest, owner_device_id);
        let all = boundary_overrides(buffers, owner_device_id);
        assert forall|b: int|
            0 <= b < buffers.len() && is_own_boundary(
                #[trigger] buffers[b],
                owner_device_id,
            ) implies has_boundary_override(all, buffers[b], owner_device_id) by {
            if b < last {
                assert(rest[b] == buffers[b]);
                assert(has_boundary_override(earlier, buffers[b], owner_device_id));
                let k = choose|k: int|
                    0 <= k < earlier.len() && stands_for_boundary(
                        buffers[b],
                        owner_device_id,
                        #[trigger] earlier[k],
                    );
                assert(all[k] == earlier[k]);
            } else {
                assert(stands_for_boundary(buffers[b], owner_device_id, all[all.len() - 1]));
            }
        }
        assert forall|k: int| 0 <= k < all.len() implies is_boundary_override(
            buffers,
            owner_device_id,
            #[trigger] all[k],
        ) by {
            if k < earlier.len() {
                assert(all[k] == earlier[k]);
                assert(is_boundary_override(rest, owner_device_id, earlier[k]));
                let b = choose|b: int|
                    0 <= b < rest.len() && stands_for_boundary(
                        #[trigger] rest[b],
                        owner_device_id,
                        earlier[k],
                    );
                assert(stands_for_boundary(buffers[b], owner_device_id, all[k]));
            } else {
                assert(stands_for_boundary(buffers[last], owner_device_id, all[k]));
            }
        }
    }
}

proof fn lemma_final_devices(
    buffers: Seq<VulkanDistributedActivationBufferModel>,
    index: nat,
)
    ensures
        final_fault_from(buffers, index) is None <==> forall|b: int|
            index <= b < buffers.len() ==> holds_its_devices(#[trigger] buffers[b]),
    decreases buffers.len() - index,
{
    if index < buffers.len() {
        lemma_final_devices(buffers, index + 1);
        assert(final_devices_fault(
            buffers[index as int].planned,
            buffers[index as int].device_buffers.dom(),
        ) is None <==> holds_its_devices(buffers[index as int]));
    }
}

/// The devices that see a buffer are those that it is planned for, each once.
pub open spec fn holds_its_devices(buffer: VulkanDistributedActivationBufferModel) -> bool {
    &&& buffer.planned.device_ids.no_duplicates()
    &&& buffer.device_buffers.dom() == buffer.planned.device_ids.to_set()
}

/// Buffers are final only where every shared activation is seen by exactly the devices that
/// it is planned for. Finalizing changes nothing but the number of imports.
pub proof fn law_final_buffers_have_their_devices(
    buffers: VulkanDistributedActivationBuffersModel,
)
    requires
        finalized(buffers) is Ok,
    ensures
        forall|b: int|
            0 <= b < buffers.allocations.len() ==> holds_its_devices(
                #[trigger] buffers.allocations[b],
            ),
        ({
            let after = finalized(buffers)->Ok_0;
            &&& after.allocations == buffers.allocations
            &&& after.reduction_allocations == buffers.reduction_allocations
            &&& after.private_intermediate_allocations == buffers.private_intermediate_allocations
        }),
{
    lemma_final_devices(buffers.allocations, 0);
}

/// Some dispatch follows a strategy.
pub open spec fn has_strategy(
    dispatches: Seq<VulkanDistributedDispatchPlanModel>,
    strategy: ExecutionStrategy,
) -> bool {
    exists|d: int|
        0 <= d < dispatches.len() && (#[trigger] dispatches[d]).execution_strategy == strategy
}

/// An island does parallel work exactly where some dispatch follows a parallel strategy; it
/// is of the kind of a strategy where all that do follow that one, and mixed where two follow
/// different ones.
pub proof fn law_islands_are_of_the_kind_of_their_dispatches(
    dispatches: Seq<VulkanDistributedDispatchPlanModel>,
)
    ensures
        ({
            let tensor = has_strategy(dispatches, ExecutionStrategy::TensorParallel);
            let expert = has_strategy(dispatches, ExecutionStrategy::ExpertParallel);
            let within = has_strategy(dispatches, ExecutionStrategy::TensorParallelExpert);
            let kind = island_kind(dispatches);
            &&& kind is Some <==> tensor || expert || within
            &&& kind == Some(VulkanPhysicalExecutionIslandKind::TensorParallel) ==> tensor
                && !expert && !within
            &&& kind == Some(VulkanPhysicalExecutionIslandKind::WholeExpertParallel) ==> expert
                && !tensor && !within
            &&& kind == Some(VulkanPhysicalExecutionIslandKind::IntraExpertTensorParallel)
                ==> within && !tensor && !expert
            &&& kind == Some(VulkanPhysicalExecutionIslandKind::Hybrid) <==> tensor && expert
                || tensor && within || expert && within
        }),
{
    assert(forall|strategy: ExecutionStrategy| #[trigger]
        has_strategy(dispatches, strategy)
            <==> crate::execution_observation::follows_strategy(dispatches, strategy));
}

/// Recorded values can be replayed exactly where the same semaphores are there and none has
/// gone back.
pub proof fn law_timelines_only_go_on(recorded: NextValues, current: NextValues)
    ensures
        rebased(recorded, current) is Ok <==> {
            &&& forall|identity: VulkanTimelineSemaphoreReplayIdentity| #[trigger]
                recorded.contains_key(identity) <==> current.contains_key(identity)
            &&& forall|identity: VulkanTimelineSemaphoreReplayIdentity| #[trigger]
                recorded.contains_key(identity) ==> recorded[identity] <= current[identity]
        },
{
    if forall|identity: VulkanTimelineSemaphoreReplayIdentity| #[trigger]
        recorded.contains_key(identity) <==> current.contains_key(identity) {
        assert(recorded.dom() =~= current.dom());
    }
    if recorded.dom() == current.dom() {
        assert forall|identity: VulkanTimelineSemaphoreReplayIdentity| #[trigger]
            recorded.contains_key(identity) <==> current.contains_key(identity) by {
            assert(recorded.dom().contains(identity) <==> current.dom().contains(identity));
        }
    }
}

/// A buffer holds an indirect command at an offset exactly where the offset is a multiple of
/// four and the three numbers of four bytes behind it end within the buffer.
pub proof fn law_indirect_commands_lie_within_their_buffer(
    byte_capacity: usize,
    byte_offset: usize,
)
    ensures
        indirect_range_fault(byte_capacity, byte_offset) is None <==> byte_offset % 4 == 0
            && byte_offset + 3 * 4 <= byte_capacity,
{
}

} // verus!
