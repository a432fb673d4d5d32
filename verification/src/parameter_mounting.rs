//! Making the parameters of a plan resident on its devices.
use vstd::prelude::*;

use crate::errors::{VulkanDistributedParameterBufferError, VulkanDistributedParameterLoadError};
use crate::ordered::{lemma_listed_at, lemma_ordered_listing_exists, ordered_listing, OrderedMap};
use crate::parameter_buffers::{
    law_schedules_serve_every_allocation, load_report, load_schedule, loaded, ranges_of,
    read_models, saturated_end, schedule_is_sound, TensorStorageRange,
    VulkanDistributedParameterBufferAllocation, VulkanDistributedParameterBufferAllocationModel,
    VulkanDistributedParameterBuffers, VulkanDistributedTensorRead,
};
use crate::parameter_loading::{
    allocation_permission, allocation_writes, can_be_loaded, can_fail, lemma_due_write_widens,
    lemma_failure_widens, lemma_loads_widen, load_names, load_succeeded, loaded_so_far, loads_name,
    told, widens, write_gave, write_is_due, write_told, WritePermission, WriteRelation,
};
use crate::parameter_plans::{
    allocation_bytes, AllocationKey, AllocationKeyModel, VulkanDistributedParameterAllocation,
    VulkanDistributedParameterAllocationModel, VulkanDistributedParameterAllocationPlan,
    VulkanDistributedParameterAllocationPlanModel,
};
use crate::resident::{
    VulkanArenaAllocation, VulkanDeviceFailure, VulkanResidentBuffer,
};
use crate::sequences::{append, lemma_sum_step, sum_of};
use crate::text::{debug_text, decimal, decimal_text, join2, join4, join8, quoted};
use crate::values::PlainValue;

verus! {

/// The key of an allocation.
pub open spec fn allocation_key(
    allocation: VulkanDistributedParameterAllocationModel,
) -> AllocationKeyModel {
    (allocation.device_id, (allocation.tensor, (allocation.byte_offset, allocation.byte_count)))
}

pub fn key_of(allocation: &VulkanDistributedParameterAllocation) -> (key: AllocationKey)
    ensures
        key.deep_view() == allocation_key(allocation.deep_view()),
{
    (
        allocation.device_id.clone(),
        (allocation.tensor.clone(), (allocation.byte_offset, allocation.byte_count)),
    )
}

/// The place of every allocation by its key; the last one where a key repeats.
pub open spec fn allocation_places(
    allocations: Seq<VulkanDistributedParameterAllocationModel>,
) -> Map<AllocationKeyModel, usize>
    decreases allocations.len(),
{
    if allocations.len() == 0 {
        Map::empty()
    } else {
        allocation_places(allocations.drop_last()).insert(
            allocation_key(allocations.last()),
            (allocations.len() - 1) as usize,
        )
    }
}

/// The allocation at an index has the key of an earlier one.
pub open spec fn repeats(
    allocations: Seq<VulkanDistributedParameterAllocationModel>,
    index: int,
) -> bool {
    allocation_places(allocations.take(index)).contains_key(allocation_key(allocations[index]))
}

/// The text of an error about an allocation that repeats.
pub open spec fn repetition_text(
    allocation: VulkanDistributedParameterAllocationModel,
) -> Seq<char> {
    "distributed parameter buffer repeats tensor "@ + debug_text(allocation.tensor) + " range "@
        + decimal_text(allocation.byte_offset as nat) + ".."@ + decimal_text(
        saturated_end(allocation.byte_offset, allocation.byte_count),
    ) + " on "@ + debug_text(allocation.device_id)
}

/// What is wrong with the allocations from an index on, behind those that hold a
/// number of bytes.
pub open spec fn placing_fault_from(
    allocations: Seq<VulkanDistributedParameterAllocationModel>,
    index: nat,
    bytes: usize,
) -> Option<Seq<char>>
    decreases allocations.len() - index,
{
    if index >= allocations.len() {
        None
    } else if bytes + allocations[index as int].byte_count > usize::MAX {
        Some("distributed parameter buffer byte capacity overflowed"@)
    } else if repeats(allocations, index as int) {
        Some(repetition_text(allocations[index as int]))
    } else {
        placing_fault_from(
            allocations,
            index + 1,
            (bytes + allocations[index as int].byte_count) as usize,
        )
    }
}

pub(crate) fn repetition_error(allocation: &VulkanDistributedParameterAllocation) -> (error:
    VulkanDistributedParameterBufferError)
    ensures
        error.0@ == repetition_text(allocation.deep_view()),
{
    VulkanDistributedParameterBufferError(
        join8(
            "distributed parameter buffer repeats tensor ",
            quoted(allocation.tensor.as_str()).as_str(),
            " range ",
            decimal(allocation.byte_offset).as_str(),
            "..",
            decimal(allocation.byte_offset.saturating_add(allocation.byte_count)).as_str(),
            " on ",
            quoted(allocation.device_id.as_str()).as_str(),
        ),
    )
}

/// The allocations of every device, in their order.
pub open spec fn device_groups(
    allocations: Seq<VulkanDistributedParameterAllocationModel>,
) -> Map<Seq<char>, Seq<usize>>
    decreases allocations.len(),
{
    if allocations.len() == 0 {
        Map::empty()
    } else {
        let found = device_groups(allocations.drop_last());
        let device_id = allocations.last().device_id;
        let indices = if found.contains_key(device_id) {
            found[device_id]
        } else {
            Seq::empty()
        };
        found.insert(device_id, indices.push((allocations.len() - 1) as usize))
    }
}

/// What each device is asked for: its allocations, by device.
pub open spec fn arena_requests(
    allocations: Seq<VulkanDistributedParameterAllocationModel>,
) -> Seq<(Seq<char>, Seq<usize>)> {
    ordered_listing::<String, Seq<usize>>(device_groups(allocations))
}

/// The index names an allocation of the device.
pub open spec fn belongs_to(
    allocations: Seq<VulkanDistributedParameterAllocationModel>,
    device_id: Seq<char>,
    index: usize,
) -> bool {
    index < allocations.len() && allocations[index as int].device_id == device_id
}

/// The groups of devices name the allocations of each device, and all of them.
pub proof fn lemma_device_groups(allocations: Seq<VulkanDistributedParameterAllocationModel>)
    requires
        allocations.len() <= usize::MAX,
    ensures
        device_groups(allocations).dom().finite(),
        forall|device_id: Seq<char>, k: int|
            #![trigger device_groups(allocations)[device_id][k]]
            device_groups(allocations).contains_key(device_id) && 0 <= k < device_groups(
                allocations,
            )[device_id].len() ==> belongs_to(
                allocations,
                device_id,
                device_groups(allocations)[device_id][k],
            ),
        forall|i: int|
            0 <= i < allocations.len() ==> device_groups(allocations).contains_key(
                (#[trigger] allocations[i]).device_id,
            ) && device_groups(allocations)[allocations[i].device_id].contains(i as usize),
    decreases allocations.len(),
{
    if allocations.len() > 0 {
        let rest = allocations.drop_last();
        lemma_device_groups(rest);
        let before = device_groups(rest);
        let after = device_groups(allocations);
        let own = allocations.last().device_id;
        assert forall|device_id: Seq<char>, k: int|
            #![trigger after[device_id][k]]
            after.contains_key(device_id) && 0 <= k < after[device_id].len() implies belongs_to(
            allocations,
            device_id,
            after[device_id][k],
        ) by {
            if device_id != own {
                assert(before[device_id][k] == after[device_id][k]);
                assert(belongs_to(rest, device_id, after[device_id][k]));
            } else if k < after[device_id].len() - 1 {
                assert(before[device_id][k] == after[device_id][k]);
                assert(belongs_to(rest, device_id, after[device_id][k]));
            }
        }
        assert forall|i: int| 0 <= i < allocations.len() implies after.contains_key(
            (#[trigger] allocations[i]).device_id,
        ) && after[allocations[i].device_id].contains(i as usize) by {
            let device_id = allocations[i].device_id;
            if i < rest.len() {
                assert(rest[i] == allocations[i]);
                let k = choose|k: int|
                    0 <= k < before[device_id].len() && before[device_id][k] == i as usize;
                assert(after[device_id][k] == i as usize);
            } else {
                assert(after[device_id][after[device_id].len() - 1] == i as usize);
            }
        }
    }
}

/// Every index of a request names an allocation of the device.
pub proof fn lemma_requests_name_allocations(
    allocations: Seq<VulkanDistributedParameterAllocationModel>,
)
    requires
        allocations.len() <= usize::MAX,
    ensures
        forall|g: int, k: int|
            #![trigger arena_requests(allocations)[g].1[k]]
            0 <= g < arena_requests(allocations).len() && 0 <= k < arena_requests(
                allocations,
            )[g].1.len() ==> belongs_to(
                allocations,
                arena_requests(allocations)[g].0,
                arena_requests(allocations)[g].1[k],
            ),
{
    let requests = arena_requests(allocations);
    lemma_device_groups(allocations);
    lemma_ordered_listing_exists::<String, Seq<usize>>(device_groups(allocations));
    assert forall|g: int, k: int|
        #![trigger requests[g].1[k]]
        0 <= g < requests.len() && 0 <= k < requests[g].1.len() implies belongs_to(
        allocations,
        requests[g].0,
        requests[g].1[k],
    ) by {
        lemma_listed_at::<String, Seq<usize>>(requests, g);
        assert(device_groups(allocations)[requests[g].0][k] == requests[g].1[k]);
    }
}

/// The bytes of the allocations that a device is asked for.
pub open spec fn requested_bytes(
    allocations: Seq<VulkanDistributedParameterAllocationModel>,
    indices: Seq<usize>,
) -> Seq<usize> {
    Seq::new(indices.len(), |k: int| allocations[indices[k] as int].byte_count)
}

/// An allocation with the part of a buffer that holds it.
pub open spec fn resident(
    allocation: VulkanDistributedParameterAllocationModel,
    arena: VulkanArenaAllocation,
) -> VulkanDistributedParameterBufferAllocationModel {
    VulkanDistributedParameterBufferAllocationModel {
        allocation,
        buffer: arena.buffer,
        byte_offset: arena.byte_offset,
    }
}

/// The buffers after the first allocations of a group got their parts.
pub open spec fn group_filled(
    allocations: Seq<VulkanDistributedParameterAllocationModel>,
    slots: Seq<Option<VulkanDistributedParameterBufferAllocationModel>>,
    indices: Seq<usize>,
    arenas: Seq<VulkanArenaAllocation>,
    count: nat,
) -> Seq<Option<VulkanDistributedParameterBufferAllocationModel>>
    decreases count,
{
    if count == 0 {
        slots
    } else {
        let index = indices[count - 1] as int;
        group_filled(allocations, slots, indices, arenas, (count - 1) as nat).update(
            index,
            Some(resident(allocations[index], arenas[count - 1])),
        )
    }
}

/// The number of allocations of a group that got a part.
pub open spec fn served_count(indices: Seq<usize>, arenas: Seq<VulkanArenaAllocation>) -> nat {
    if indices.len() <= arenas.len() {
        indices.len()
    } else {
        arenas.len()
    }
}

/// The buffers after the first groups got their parts.
pub open spec fn groups_filled(
    allocations: Seq<VulkanDistributedParameterAllocationModel>,
    start: Seq<Option<VulkanDistributedParameterBufferAllocationModel>>,
    groups: Seq<(Seq<char>, Seq<usize>)>,
    arenas: Seq<Seq<VulkanArenaAllocation>>,
    count: nat,
) -> Seq<Option<VulkanDistributedParameterBufferAllocationModel>>
    decreases count,
{
    if count == 0 {
        start
    } else {
        group_filled(
            allocations,
            groups_filled(allocations, start, groups, arenas, (count - 1) as nat),
            groups[count - 1].1,
            arenas[count - 1],
            served_count(groups[count - 1].1, arenas[count - 1]),
        )
    }
}

/// No allocation has a buffer.
pub open spec fn no_buffers(count: nat) -> Seq<
    Option<VulkanDistributedParameterBufferAllocationModel>,
> {
    Seq::new(count, |i: int| None)
}

/// The first allocation from an index on that got no buffer.
pub open spec fn missing_from(
    slots: Seq<Option<VulkanDistributedParameterBufferAllocationModel>>,
    index: nat,
) -> Option<nat>
    decreases slots.len() - index,
{
    if index >= slots.len() {
        None
    } else if slots[index as int] is None {
        Some(index)
    } else {
        missing_from(slots, index + 1)
    }
}

/// The buffers of allocations that all got one.
pub open spec fn complete(
    slots: Seq<Option<VulkanDistributedParameterBufferAllocationModel>>,
) -> Seq<VulkanDistributedParameterBufferAllocationModel> {
    Seq::new(slots.len(), |i: int| slots[i]->0)
}

/// Gives the parts of a buffer to the allocations of a group.
pub(crate) fn fill_group(
    plan: &VulkanDistributedParameterAllocationPlan,
    slots: &mut Vec<Option<VulkanDistributedParameterBufferAllocation>>,
    indices: &Vec<usize>,
    arenas: &Vec<VulkanArenaAllocation>,
)
    requires
        old(slots).len() == plan.allocations.len(),
        forall|k: int| 0 <= k < indices.len() ==> #[trigger] indices@[k] < plan.allocations.len(),
    ensures
        final(slots).len() == plan.allocations.len(),
        final(slots).deep_view() == group_filled(
            plan.deep_view().allocations,
            old(slots).deep_view(),
            indices.deep_view(),
            arenas.deep_view(),
            served_count(indices.deep_view(), arenas.deep_view()),
        ),
{
    let ghost all = plan.deep_view().allocations;
    let ghost before = slots.deep_view();
    let mut count: usize = 0;
    while count < indices.len() && count < arenas.len()
        invariant
            all == plan.deep_view().allocations,
            slots.len() == plan.allocations.len(),
            count <= served_count(indices.deep_view(), arenas.deep_view()),
            forall|k: int|
                0 <= k < indices.len() ==> #[trigger] indices@[k] < plan.allocations.len(),
            slots.deep_view() == group_filled(
                all,
                before,
                indices.deep_view(),
                arenas.deep_view(),
                count as nat,
            ),
        decreases indices.len() - count,
    {
        let index: usize = indices[count];
        assert(indices.deep_view()[count as int] == index);
        assert(arenas.deep_view()[count as int] == arenas@[count as int]);
        assert(all[index as int] == plan.allocations@[index as int].deep_view());
        let ghost earlier = slots.deep_view();
        let filled = Some(
            VulkanDistributedParameterBufferAllocation {
                allocation: plan.allocations[index].duplicate(),
                buffer: arenas[count].buffer,
                byte_offset: arenas[count].byte_offset,
            },
        );
        let ghost model = filled.deep_view();
        slots[index] = filled;
        assert(slots.deep_view() =~= earlier.update(index as int, model));
        count += 1;
    }
}

/// Takes the buffers of allocations, or names the first that got none.
pub(crate) fn take_complete(
    slots: Vec<Option<VulkanDistributedParameterBufferAllocation>>,
) -> (outcome: Result<
    Vec<VulkanDistributedParameterBufferAllocation>,
    usize,
>)
    ensures
        match outcome {
            Ok(buffers) => missing_from(slots.deep_view(), 0) is None && buffers.deep_view()
                == complete(slots.deep_view()),
            Err(index) => missing_from(slots.deep_view(), 0) == Some(index as nat),
        },
{
    let ghost all = slots.deep_view();
    let ghost expected = complete(all);
    let mut buffers: Vec<VulkanDistributedParameterBufferAllocation> = Vec::new();
    assert(buffers.deep_view() =~= expected.take(0));
    for index in 0..slots.len()
        invariant
            all == slots.deep_view(),
            expected == complete(all),
            missing_from(all, 0) == missing_from(all, index as nat),
            buffers.deep_view() == expected.take(index as int),
    {
        assert(all[index as int] == slots@[index as int].deep_view());
        match &slots[index] {
            None => {
                return Err(index);
            },
            Some(buffer) => {
                append(&mut buffers, buffer.duplicate());
                assert(expected.take(index as int + 1) =~= expected.take(index as int).push(
                    expected[index as int],
                ));
            },
        }
    }
    assert(expected.take(expected.len() as int) =~= expected);
    Ok(buffers)
}

pub(crate) fn empty_slots(count: usize) -> (slots: Vec<Option<VulkanDistributedParameterBufferAllocation>>)
    ensures
        slots.len() == count,
        slots.deep_view() == no_buffers(count as nat),
{
    let mut slots: Vec<Option<VulkanDistributedParameterBufferAllocation>> = Vec::new();
    for index in 0..count
        invariant
            slots.len() == index,
            forall|i: int| 0 <= i < index ==> #[trigger] slots@[i] is None,
    {
        slots.push(None);
    }
    assert(slots.deep_view() =~= no_buffers(count as nat));
    slots
}

/// The arguments of a write put a payload into a buffer.
pub open spec fn takes_payload(
    buffer: VulkanDistributedParameterBufferAllocationModel,
    payload: Seq<u8>,
    target: &VulkanResidentBuffer,
    offset: usize,
    bytes: &Vec<u8>,
) -> bool {
    *target == buffer.buffer && offset == buffer.byte_offset && bytes.deep_view() == payload
}

/// Writing bytes to a buffer on devices gave an outcome and left the devices so.
pub open spec fn bytes_gave<
    D,
    W: Fn(D, &VulkanResidentBuffer, usize, &Vec<u8>) -> (D, Result<(), String>),
>(
    write: W,
    from: D,
    buffer: VulkanDistributedParameterBufferAllocationModel,
    payload: Seq<u8>,
    to: D,
    outcome: Result<(), Seq<char>>,
) -> bool {
    exists|
        target: &VulkanResidentBuffer,
        offset: usize,
        bytes: &Vec<u8>,
        given: Result<(), String>,
    |
        takes_payload(buffer, payload, target, offset, bytes) && #[trigger] call_ensures(
            write,
            (from, target, offset, bytes),
            (to, given),
        ) && outcome == told(given)
}

/// Bytes may be written to a buffer on devices.
pub open spec fn bytes_can_be_written<
    D,
    W: Fn(D, &VulkanResidentBuffer, usize, &Vec<u8>) -> (D, Result<(), String>),
>(
    write: W,
    at: D,
    buffer: VulkanDistributedParameterBufferAllocationModel,
    payload: Seq<u8>,
) -> bool {
    forall|target: &VulkanResidentBuffer, offset: usize, bytes: &Vec<u8>|
        takes_payload(buffer, payload, target, offset, bytes) ==> #[trigger] call_requires(
            write,
            (at, target, offset, bytes),
        )
}

/// What writing to the buffers of allocations can come to.
pub open spec fn buffer_writes<
    D,
    W: Fn(D, &VulkanResidentBuffer, usize, &Vec<u8>) -> (D, Result<(), String>),
>(
    write: W,
    buffers: Seq<VulkanDistributedParameterBufferAllocationModel>,
) -> WriteRelation<D> {
    |from: D, index: usize, payload: Seq<u8>, to: D, outcome: Result<(), Seq<char>>|
        bytes_gave(write, from, buffers[index as int], payload, to, outcome)
}

/// Which writes may be made to the buffers of allocations.
pub open spec fn buffer_permission<
    D,
    W: Fn(D, &VulkanResidentBuffer, usize, &Vec<u8>) -> (D, Result<(), String>),
>(
    write: W,
    buffers: Seq<VulkanDistributedParameterBufferAllocationModel>,
) -> WritePermission<D> {
    |at: D, index: usize, payload: Seq<u8>|
        bytes_can_be_written(write, at, buffers[index as int], payload)
}

/// The buffers hold what was read: every tensor of the schedule was read once, and every
/// payload was written to the buffers of its allocations, and nothing besides.
pub open spec fn filled_by<
    D,
    R: Fn(D, &String, &Vec<TensorStorageRange>) -> (D, Result<VulkanDistributedTensorRead, String>),
    W: Fn(D, &VulkanResidentBuffer, usize, &Vec<u8>) -> (D, Result<(), String>),
>(
    read: R,
    write: W,
    allocations: Seq<VulkanDistributedParameterAllocationModel>,
    buffers: Seq<VulkanDistributedParameterBufferAllocationModel>,
    from: D,
    to: D,
) -> bool {
    exists|reads: Seq<VulkanDistributedTensorRead>| #[trigger]
        load_succeeded(
            read,
            buffer_writes(write, buffers),
            load_schedule(allocations),
            reads,
            from,
            to,
        )
}

/// Filling the buffers failed: a tensor could not be read, or what was read could not be
/// written or counted.
pub open spec fn filling_can_fail<
    D,
    R: Fn(D, &String, &Vec<TensorStorageRange>) -> (D, Result<VulkanDistributedTensorRead, String>),
    W: Fn(D, &VulkanResidentBuffer, usize, &Vec<u8>) -> (D, Result<(), String>),
>(
    read: R,
    write: W,
    allocations: Seq<VulkanDistributedParameterAllocationModel>,
    buffers: Seq<VulkanDistributedParameterBufferAllocationModel>,
    message: Seq<char>,
    from: D,
    to: D,
) -> bool {
    can_fail(
        read,
        buffer_writes(write, buffers),
        load_schedule(allocations),
        message,
        from,
        to,
    )
}

/// The buffers of allocations may be filled on devices. Nothing is written but what was
/// read for an allocation, to the buffer of this allocation.
pub open spec fn buffers_can_be_filled<
    D,
    R: Fn(D, &String, &Vec<TensorStorageRange>) -> (D, Result<VulkanDistributedTensorRead, String>),
    W: Fn(D, &VulkanResidentBuffer, usize, &Vec<u8>) -> (D, Result<(), String>),
>(
    read: R,
    write: W,
    allocations: Seq<VulkanDistributedParameterAllocationModel>,
    buffers: Seq<VulkanDistributedParameterBufferAllocationModel>,
    from: D,
) -> bool {
    can_be_loaded(
        read,
        buffer_writes(write, buffers),
        buffer_permission(write, buffers),
        load_schedule(allocations),
        from,
    )
}

/// Without repetition every allocation stands at the place of its key.
pub proof fn lemma_places(allocations: Seq<VulkanDistributedParameterAllocationModel>, index: int)
    requires
        allocations.len() <= usize::MAX,
        0 <= index < allocations.len(),
        forall|i: int| 0 <= i < allocations.len() ==> !#[trigger] repeats(allocations, i),
    ensures
        allocation_places(allocations).contains_key(allocation_key(allocations[index])),
        allocation_places(allocations)[allocation_key(allocations[index])] == index,
    decreases allocations.len(),
{
    let rest = allocations.drop_last();
    if index < rest.len() {
        assert(rest[index] == allocations[index]);
        assert forall|i: int| 0 <= i < rest.len() implies !#[trigger] repeats(rest, i) by {
            assert(rest.take(i) =~= allocations.take(i));
            assert(!repeats(allocations, i));
        }
        lemma_places(rest, index);
        assert(!repeats(allocations, allocations.len() - 1));
        assert(allocations.take(allocations.len() - 1) =~= rest);
    }
}

pub proof fn lemma_no_repeats(
    allocations: Seq<VulkanDistributedParameterAllocationModel>,
    start: nat,
    bytes: usize,
    index: int,
)
    requires
        placing_fault_from(allocations, start, bytes) is None,
        start <= index < allocations.len(),
    ensures
        !repeats(allocations, index),
    decreases allocations.len() - start,
{
    if start < index {
        lemma_no_repeats(
            allocations,
            start + 1,
            (bytes + allocations[start as int].byte_count) as usize,
            index,
        );
    }
}

/// The buffers of allocations by the places of their keys.
pub open spec fn targets_of(
    places: Map<AllocationKeyModel, usize>,
    buffers: Seq<VulkanDistributedParameterBufferAllocationModel>,
    allocations: Seq<VulkanDistributedParameterAllocationModel>,
) -> Seq<VulkanDistributedParameterBufferAllocationModel> {
    Seq::new(
        allocations.len(),
        |i: int| buffers[places[allocation_key(allocations[i])] as int],
    )
}

/// The key of an allocation has a place among buffers.
pub open spec fn has_place(
    places: Map<AllocationKeyModel, usize>,
    count: nat,
    allocation: VulkanDistributedParameterAllocationModel,
) -> bool {
    places.contains_key(allocation_key(allocation)) && places[allocation_key(allocation)] < count
}

/// Bytes may be written to the buffer at the place of an allocation's key.
pub open spec fn place_can_be_written<
    D,
    W: Fn(D, &VulkanResidentBuffer, usize, &Vec<u8>) -> (D, Result<(), String>),
>(
    write: &W,
    places: Map<AllocationKeyModel, usize>,
    buffers: Seq<VulkanDistributedParameterBufferAllocationModel>,
    at: D,
    allocation: VulkanDistributedParameterAllocationModel,
    payload: Seq<u8>,
) -> bool {
    has_place(places, buffers.len(), allocation) && bytes_can_be_written(
        *write,
        at,
        buffers[places[allocation_key(allocation)] as int],
        payload,
    )
}

/// Writing bytes to the buffer at the place of an allocation's key gave an outcome.
pub open spec fn place_gave<
    D,
    W: Fn(D, &VulkanResidentBuffer, usize, &Vec<u8>) -> (D, Result<(), String>),
>(
    write: &W,
    places: Map<AllocationKeyModel, usize>,
    buffers: Seq<VulkanDistributedParameterBufferAllocationModel>,
    from: D,
    allocation: VulkanDistributedParameterAllocationModel,
    payload: Seq<u8>,
    to: D,
    outcome: Result<(), Seq<char>>,
) -> bool {
    bytes_gave(
        *write,
        from,
        buffers[places[allocation_key(allocation)] as int],
        payload,
        to,
        outcome,
    )
}

fn write_to_place<
    D,
    W: Fn(D, &VulkanResidentBuffer, usize, &Vec<u8>) -> (D, Result<(), String>),
>(
    places: &OrderedMap<AllocationKey, usize>,
    buffers: &Vec<VulkanDistributedParameterBufferAllocation>,
    devices: D,
    write: &W,
    allocation: &VulkanDistributedParameterAllocation,
    bytes: &Vec<u8>,
    missing_prefix: &str,
) -> (result: (D, Result<(), VulkanDistributedParameterLoadError>))
    requires
        place_can_be_written(
            write,
            places.deep_view(),
            buffers.deep_view(),
            devices,
            allocation.deep_view(),
            bytes.deep_view(),
        ),
    ensures
        place_gave(
            write,
            places.deep_view(),
            buffers.deep_view(),
            devices,
            allocation.deep_view(),
            bytes.deep_view(),
            result.0,
            write_told(result.1),
        ),
{
    assert(buffers.deep_view().len() == buffers.len());
    let place: Option<usize> = match places.get(&key_of(allocation)) {
        Some(place) => if *place < buffers.len() {
            Some(*place)
        } else {
            None
        },
        None => None,
    };
    match place {
        None => (
            devices,
            Err(
                VulkanDistributedParameterLoadError(
                    join8(
                        missing_prefix,
                        quoted(allocation.tensor.as_str()).as_str(),
                        " range ",
                        decimal(allocation.byte_offset).as_str(),
                        "..",
                        decimal(
                            allocation.byte_offset.saturating_add(allocation.byte_count),
                        ).as_str(),
                        " on ",
                        join2(
                            quoted(allocation.device_id.as_str()).as_str(),
                            " is missing",
                        ).as_str(),
                    ),
                ),
            ),
        ),
        Some(index) => {
            let target = &buffers[index];
            assert(buffers.deep_view()[index as int] == target.deep_view());
            let ghost from = devices;
            let (left, given) = write(devices, &target.buffer, target.byte_offset, bytes);
            proof {
                assert(takes_payload(
                    target.deep_view(),
                    bytes.deep_view(),
                    &target.buffer,
                    target.byte_offset,
                    bytes,
                ));
                assert(call_ensures(
                    *write,
                    (from, &target.buffer, target.byte_offset, bytes),
                    (left, given),
                ));
                assert(bytes_gave(
                    *write,
                    from,
                    target.deep_view(),
                    bytes.deep_view(),
                    left,
                    told(given),
                ));
            }
            match given {
                Err(text) => (left, Err(VulkanDistributedParameterLoadError(text))),
                Ok(unit) => {
                    assert(unit == ());
                    (left, Ok(()))
                },
            }
        },
    }
}

/// Loads allocations into the buffers at the places of their keys.
pub(crate) fn fill_buffers<
    D,
    R: Fn(D, &String, &Vec<TensorStorageRange>) -> (D, Result<VulkanDistributedTensorRead, String>),
    W: Fn(D, &VulkanResidentBuffer, usize, &Vec<u8>) -> (D, Result<(), String>),
>(
    plan: &VulkanDistributedParameterAllocationPlan,
    buffers: &Vec<VulkanDistributedParameterBufferAllocation>,
    places: &OrderedMap<AllocationKey, usize>,
    devices: D,
    read: &R,
    write: &W,
    missing_prefix: &str,
) -> (result: (Result<(), VulkanDistributedParameterBufferError>, D))
    requires
        forall|i: int|
            0 <= i < plan.allocations.len() ==> has_place(
                places.deep_view(),
                buffers.deep_view().len(),
                #[trigger] plan.deep_view().allocations[i],
            ),
        buffers_can_be_filled(
            *read,
            *write,
            plan.deep_view().allocations,
            targets_of(places.deep_view(), buffers.deep_view(), plan.deep_view().allocations),
            devices,
        ),
    ensures
        match result.0 {
            Ok(_) => filled_by(
                *read,
                *write,
                plan.deep_view().allocations,
                targets_of(places.deep_view(), buffers.deep_view(), plan.deep_view().allocations),
                devices,
                result.1,
            ),
            Err(error) => filling_can_fail(
                *read,
                *write,
                plan.deep_view().allocations,
                targets_of(places.deep_view(), buffers.deep_view(), plan.deep_view().allocations),
                error.0@,
                devices,
                result.1,
            ),
        },
{
    let ghost all = plan.deep_view().allocations;
    let ghost loads = load_schedule(all);
    let ghost targets = targets_of(places.deep_view(), buffers.deep_view(), all);
    let ghost from = devices;
    assert(all.len() == plan.allocations.len());
    let write_allocation = |
        held: D,
        allocation: &VulkanDistributedParameterAllocation,
        bytes: &Vec<u8>,
    | -> (written: (D, Result<(), VulkanDistributedParameterLoadError>))
        requires
            place_can_be_written(
                write,
                places.deep_view(),
                buffers.deep_view(),
                held,
                allocation.deep_view(),
                bytes.deep_view(),
            ),
        ensures
            place_gave(
                write,
                places.deep_view(),
                buffers.deep_view(),
                held,
                allocation.deep_view(),
                bytes.deep_view(),
                written.0,
                write_told(written.1),
            ),
        { write_to_place(places, buffers, held, write, allocation, bytes, missing_prefix) };
    let ghost placed = allocation_writes(write_allocation, all);
    let ghost writes = buffer_writes(*write, targets);
    proof {
        law_schedules_serve_every_allocation(plan.deep_view());
        assert(loads_name(loads, all.len())) by {
            assert forall|i: int| 0 <= i < loads.len() implies load_names(
                #[trigger] loads[i],
                all.len(),
            ) by {
                assert(schedule_is_sound(plan.deep_view(), loads));
            }
        }
        assert(widens(placed, writes, all.len())) by {
            assert forall|
                at: D,
                index: usize,
                payload: Seq<u8>,
                to: D,
                outcome: Result<(), Seq<char>>,
            |
                index < all.len() && #[trigger] placed(at, index, payload, to, outcome) implies
                writes(at, index, payload, to, outcome) by {
                assert(write_gave(
                    write_allocation,
                    at,
                    all[index as int],
                    payload,
                    to,
                    outcome,
                ));
            }
        }
        assert forall|
            reads: Seq<VulkanDistributedTensorRead>,
            at: D,
            tensor: &String,
            ranges: &Vec<TensorStorageRange>,
        |
            #![trigger loaded_so_far(*read, placed, loads, reads, from, at), call_requires(*read, (at, tensor, ranges))]
            loaded_so_far(*read, placed, loads, reads, from, at) && reads.len() < loads.len()
                && tensor@ == loads[reads.len() as int].tensor && ranges@ == ranges_of(
                loads[reads.len() as int],
            ) implies call_requires(*read, (at, tensor, ranges)) by {
            lemma_loads_widen(*read, placed, writes, all.len(), loads, reads, from, at);
        }
        assert forall|reads: Seq<VulkanDistributedTensorRead>, range: int, place: int, at: D|
            #[trigger]
            write_is_due(*read, placed, loads, reads, range, place, from, at) implies
            allocation_permission(write_allocation, all)(
            at,
            loads[reads.len() - 1].ranges[range].allocation_indices[place],
            reads.last().deep_view().payloads[range],
        ) by {
            lemma_due_write_widens(
                *read,
                placed,
                writes,
                all.len(),
                loads,
                reads,
                range,
                place,
                from,
                at,
            );
            let index = loads[reads.len() - 1].ranges[range].allocation_indices[place];
            assert(has_place(places.deep_view(), buffers.deep_view().len(), all[index as int]));
            assert(bytes_can_be_written(
                *write,
                at,
                targets[index as int],
                reads.last().deep_view().payloads[range],
            ));
        }
    }
    let (outcome, left) = plan.load_from_tensor_index(devices, read, &write_allocation);
    match outcome {
        Err(error) => {
            proof {
                lemma_failure_widens(
                    *read,
                    placed,
                    writes,
                    all.len(),
                    loads,
                    error.0@,
                    from,
                    left,
                );
            }
            (Err(VulkanDistributedParameterBufferError(error.0)), left)
        },
        Ok(report) => {
            proof {
                let reads = choose|reads: Seq<VulkanDistributedTensorRead>| #[trigger]
                    load_succeeded(*read, placed, loads, reads, from, left) && report
                        == load_report(
                        plan.deep_view(),
                        loaded(loads, read_models(reads))->Ok_0,
                    );
                lemma_loads_widen(*read, placed, writes, all.len(), loads, reads, from, left);
                assert(load_succeeded(*read, writes, loads, reads, from, left));
            }
            (Ok(()), left)
        },
    }
}

/// Finds the place of every allocation, and the bytes of all.
fn place_allocations(plan: &VulkanDistributedParameterAllocationPlan) -> (outcome: Result<
    (OrderedMap<AllocationKey, usize>, usize),
    VulkanDistributedParameterBufferError,
>)
    ensures
        match outcome {
            Ok(placed) => placing_fault_from(plan.deep_view().allocations, 0, 0) is None
                && placed.0.deep_view() == allocation_places(plan.deep_view().allocations)
                && placed.1 == sum_of(plan.deep_view().allocations, allocation_bytes()),
            Err(error) => placing_fault_from(plan.deep_view().allocations, 0, 0) == Some(error.0@),
        },
{
    let ghost all = plan.deep_view().allocations;
    let ghost measure = allocation_bytes();
    let mut places: OrderedMap<AllocationKey, usize> = OrderedMap::new();
    let mut total: usize = 0;
    for index in 0..plan.allocations.len()
        invariant
            all == plan.deep_view().allocations,
            measure == allocation_bytes(),
            places.deep_view() == allocation_places(all.take(index as int)),
            total == sum_of(all.take(index as int), measure),
            placing_fault_from(all, 0, 0) == placing_fault_from(all, index as nat, total),
    {
        let allocation = &plan.allocations[index];
        assert(all[index as int] == allocation.deep_view());
        assert(all.take(index as int + 1).drop_last() =~= all.take(index as int));
        proof {
            lemma_sum_step(all, measure, index as int);
        }
        match total.checked_add(allocation.byte_count) {
            None => {
                return Err(
                    VulkanDistributedParameterBufferError(
                        "distributed parameter buffer byte capacity overflowed".to_owned(),
                    ),
                );
            },
            Some(sum) => {
                total = sum;
            },
        }
        if places.insert(key_of(allocation), index).is_some() {
            return Err(repetition_error(allocation));
        }
    }
    assert(all.take(all.len() as int) =~= all);
    Ok((places, total))
}

fn list_device_groups(plan: &VulkanDistributedParameterAllocationPlan) -> (groups: OrderedMap<
    String,
    Vec<usize>,
>)
    ensures
        groups.deep_view() == device_groups(plan.deep_view().allocations),
{
    let ghost all = plan.deep_view().allocations;
    let mut groups: OrderedMap<String, Vec<usize>> = OrderedMap::new();
    for index in 0..plan.allocations.len()
        invariant
            all == plan.deep_view().allocations,
            groups.deep_view() == device_groups(all.take(index as int)),
    {
        assert(all.take(index as int + 1).drop_last() =~= all.take(index as int));
        assert(all[index as int] == plan.allocations@[index as int].deep_view());
        let device_id = &plan.allocations[index].device_id;
        let ghost before = groups.deep_view();
        let mut indices: Vec<usize> = match groups.get(device_id) {
            Some(indices) => indices.duplicate(),
            None => Vec::new(),
        };
        assert(indices.deep_view() =~= (if before.contains_key(device_id@) {
            before[device_id@]
        } else {
            Seq::empty()
        }));
        append(&mut indices, index);
        groups.insert(device_id.clone(), indices);
    }
    assert(all.take(all.len() as int) =~= all);
    groups
}

fn list_requested_bytes(
    plan: &VulkanDistributedParameterAllocationPlan,
    indices: &Vec<usize>,
) -> (bytes: Vec<usize>)
    requires
        forall|k: int| 0 <= k < indices.len() ==> #[trigger] indices@[k] < plan.allocations.len(),
    ensures
        bytes@ == requested_bytes(plan.deep_view().allocations, indices.deep_view()),
{
    let mut bytes: Vec<usize> = Vec::new();
    for index in 0..indices.len()
        invariant
            bytes.len() == index,
            forall|k: int|
                0 <= k < indices.len() ==> #[trigger] indices@[k] < plan.allocations.len(),
            forall|k: int|
                0 <= k < index ==> #[trigger] bytes@[k]
                    == plan.allocations@[indices@[k] as int].byte_count,
    {
        bytes.push(plan.allocations[indices[index]].byte_count);
    }
    assert(bytes@ =~= requested_bytes(plan.deep_view().allocations, indices.deep_view()));
    bytes
}

/// A device that was asked for its allocations gave an outcome and left the devices so.
pub open spec fn arena_gave<
    D,
    A: Fn(D, &String, &Vec<usize>) -> (
        D,
        Result<Vec<VulkanArenaAllocation>, VulkanDeviceFailure>,
    ),
>(
    allocate: A,
    from: D,
    allocations: Seq<VulkanDistributedParameterAllocationModel>,
    request: (Seq<char>, Seq<usize>),
    to: D,
    outcome: Result<Vec<VulkanArenaAllocation>, VulkanDeviceFailure>,
) -> bool {
    exists|device_id: &String, bytes: &Vec<usize>|
        device_id@ == request.0 && bytes@ == requested_bytes(allocations, request.1)
            && #[trigger] call_ensures(allocate, (from, device_id, bytes), (to, outcome))
}

/// The first devices gave parts of buffers, one after the other.
pub open spec fn arenas_gave<
    D,
    A: Fn(D, &String, &Vec<usize>) -> (
        D,
        Result<Vec<VulkanArenaAllocation>, VulkanDeviceFailure>,
    ),
>(
    allocate: A,
    allocations: Seq<VulkanDistributedParameterAllocationModel>,
    given: Seq<Vec<VulkanArenaAllocation>>,
    from: D,
    to: D,
) -> bool
    decreases given.len(),
{
    if given.len() == 0 {
        from == to
    } else {
        given.len() <= arena_requests(allocations).len() && exists|at: D| #[trigger]
            arena_gave(
                allocate,
                at,
                allocations,
                arena_requests(allocations)[given.len() - 1],
                to,
                Ok::<Vec<VulkanArenaAllocation>, VulkanDeviceFailure>(given.last()),
            ) && arenas_gave(allocate, allocations, given.drop_last(), from, at)
    }
}

/// The models of parts of buffers.
pub open spec fn arena_models(given: Seq<Vec<VulkanArenaAllocation>>) -> Seq<
    Seq<VulkanArenaAllocation>,
> {
    Seq::new(given.len(), |i: int| given[i].deep_view())
}

/// The buffers of allocations for which devices gave parts.
pub open spec fn arena_slots(
    allocations: Seq<VulkanDistributedParameterAllocationModel>,
    given: Seq<Vec<VulkanArenaAllocation>>,
) -> Seq<Option<VulkanDistributedParameterBufferAllocationModel>> {
    groups_filled(
        allocations,
        no_buffers(allocations.len()),
        arena_requests(allocations),
        arena_models(given),
        given.len(),
    )
}

/// The buffers are those that the devices gave.
pub open spec fn allocated_by<
    D,
    A: Fn(D, &String, &Vec<usize>) -> (
        D,
        Result<Vec<VulkanArenaAllocation>, VulkanDeviceFailure>,
    ),
>(
    allocate: A,
    allocations: Seq<VulkanDistributedParameterAllocationModel>,
    buffers: Seq<VulkanDistributedParameterBufferAllocationModel>,
    from: D,
    to: D,
) -> bool {
    exists|given: Seq<Vec<VulkanArenaAllocation>>|
        given.len() == arena_requests(allocations).len() && #[trigger] arenas_gave(
            allocate,
            allocations,
            given,
            from,
            to,
        ) && missing_from(arena_slots(allocations, given), 0) is None && buffers == complete(
            arena_slots(allocations, given),
        )
}

/// The text of an error of a device that was asked for parameters.
pub open spec fn parameter_device_text(device_id: Seq<char>, failure: VulkanDeviceFailure) -> Seq<
    char,
> {
    match failure {
        VulkanDeviceFailure::Unresolved { reason } =>
            "failed to resolve distributed parameter device "@ + debug_text(device_id) + ": "@
            + reason@,
        VulkanDeviceFailure::Failed { reason } => reason@,
    }
}

/// The error is that of the next device, which did not give what it was asked for, or
/// that of an allocation that got nothing.
pub open spec fn allocation_failed<
    D,
    A: Fn(D, &String, &Vec<usize>) -> (
        D,
        Result<Vec<VulkanArenaAllocation>, VulkanDeviceFailure>,
    ),
>(
    allocate: A,
    allocations: Seq<VulkanDistributedParameterAllocationModel>,
    given: Seq<Vec<VulkanArenaAllocation>>,
    message: Seq<char>,
    from: D,
    to: D,
) -> bool {
    let requests = arena_requests(allocations);
    if given.len() < requests.len() {
        exists|at: D, failure: VulkanDeviceFailure| #[trigger]
            arena_gave(
                allocate,
                at,
                allocations,
                requests[given.len() as int],
                to,
                Err::<Vec<VulkanArenaAllocation>, VulkanDeviceFailure>(failure),
            ) && arenas_gave(allocate, allocations, given, from, at) && message
                == parameter_device_text(requests[given.len() as int].0, failure)
    } else {
        given.len() == requests.len() && arenas_gave(allocate, allocations, given, from, to)
            && missing_from(arena_slots(allocations, given), 0) is Some && message
            == "distributed parameter arena did not allocate plan index "@ + decimal_text(
            missing_from(arena_slots(allocations, given), 0)->0,
        )
    }
}

/// Some parts of buffers account for the failure of an allocation.
pub open spec fn allocation_can_fail<
    D,
    A: Fn(D, &String, &Vec<usize>) -> (
        D,
        Result<Vec<VulkanArenaAllocation>, VulkanDeviceFailure>,
    ),
>(
    allocate: A,
    allocations: Seq<VulkanDistributedParameterAllocationModel>,
    message: Seq<char>,
    from: D,
    to: D,
) -> bool {
    exists|given: Seq<Vec<VulkanArenaAllocation>>| #[trigger]
        allocation_failed(allocate, allocations, given, message, from, to)
}

/// The buffers of the allocations of a plan for what every device gave, or the text of
/// the error.
pub open spec fn given_buffers(
    allocations: Seq<VulkanDistributedParameterAllocationModel>,
    given: Seq<Vec<VulkanArenaAllocation>>,
) -> Result<Seq<VulkanDistributedParameterBufferAllocationModel>, Seq<char>> {
    match missing_from(arena_slots(allocations, given), 0) {
        Some(index) => Err(
            "distributed parameter arena did not allocate plan index "@ + decimal_text(index),
        ),
        None => Ok(complete(arena_slots(allocations, given))),
    }
}

/// Gives the allocations of a plan the parts that every device gave for its own.
pub fn take_given_buffers(
    plan: &VulkanDistributedParameterAllocationPlan,
    given: &Vec<Vec<VulkanArenaAllocation>>,
) -> (outcome: Result<
    Vec<VulkanDistributedParameterBufferAllocation>,
    VulkanDistributedParameterBufferError,
>)
    requires
        given.len() == arena_requests(plan.deep_view().allocations).len(),
    ensures
        match outcome {
            Ok(buffers) => given_buffers(plan.deep_view().allocations, given@) == Ok::<
                Seq<VulkanDistributedParameterBufferAllocationModel>,
                Seq<char>,
            >(buffers.deep_view()),
            Err(error) => given_buffers(plan.deep_view().allocations, given@) == Err::<
                Seq<VulkanDistributedParameterBufferAllocationModel>,
                Seq<char>,
            >(error.0@),
        },
{
    let ghost all = plan.deep_view().allocations;
    let groups = list_device_groups(plan);
    let ghost requests = arena_requests(all);
    let count: usize = groups.len();
    proof {
        assert(all.len() == plan.allocations.len());
        lemma_requests_name_allocations(all);
    }
    let mut slots = empty_slots(plan.allocations.len());
    for group in 0..count
        invariant
            all == plan.deep_view().allocations,
            all.len() == plan.allocations.len(),
            requests == arena_requests(all),
            requests == groups.listing(),
            count == requests.len(),
            count == given.len(),
            slots.len() == plan.allocations.len(),
            forall|g: int, k: int|
                #![trigger requests[g].1[k]]
                0 <= g < requests.len() && 0 <= k < requests[g].1.len() ==> requests[g].1[k]
                    < all.len(),
            slots.deep_view() == groups_filled(
                all,
                no_buffers(all.len()),
                requests,
                arena_models(given@),
                group as nat,
            ),
    {
        let indices = groups.value_at(group);
        proof {
            assert forall|k: int| 0 <= k < indices.len() implies #[trigger] indices@[k]
                < plan.allocations.len() by {
                assert(indices.deep_view()[k] == indices@[k]);
                assert(requests[group as int].1[k] == indices@[k]);
            }
        }
        fill_group(plan, &mut slots, indices, &given[group]);
    }
    match take_complete(slots) {
        Ok(buffers) => Ok(buffers),
        Err(index) => Err(
            VulkanDistributedParameterBufferError(
                join2(
                    "distributed parameter arena did not allocate plan index ",
                    decimal(index).as_str(),
                ),
            ),
        ),
    }
}

/// The devices may be asked: each for the allocations on it, in the order of their
/// names, once those before it gave theirs. No device is asked where an allocation
/// repeats or the bytes cannot be counted.
pub open spec fn arenas_can_be_asked<
    D,
    A: Fn(D, &String, &Vec<usize>) -> (
        D,
        Result<Vec<VulkanArenaAllocation>, VulkanDeviceFailure>,
    ),
>(
    allocate: A,
    allocations: Seq<VulkanDistributedParameterAllocationModel>,
    from: D,
) -> bool {
    let requests = arena_requests(allocations);
    forall|given: Seq<Vec<VulkanArenaAllocation>>, at: D, device_id: &String, bytes: &Vec<usize>|
        #![trigger arenas_gave(allocate, allocations, given, from, at), call_requires(allocate, (at, device_id, bytes))]
        placing_fault_from(allocations, 0, 0) is None && arenas_gave(
            allocate,
            allocations,
            given,
            from,
            at,
        ) && given.len() < requests.len() && device_id@ == requests[given.len() as int].0 && bytes@
            == requested_bytes(allocations, requests[given.len() as int].1) ==> call_requires(
            allocate,
            (at, device_id, bytes),
        )
}

/// The buffers that the devices gave may be filled.
pub open spec fn arenas_can_be_filled<
    D,
    A: Fn(D, &String, &Vec<usize>) -> (
        D,
        Result<Vec<VulkanArenaAllocation>, VulkanDeviceFailure>,
    ),
    R: Fn(D, &String, &Vec<TensorStorageRange>) -> (D, Result<VulkanDistributedTensorRead, String>),
    W: Fn(D, &VulkanResidentBuffer, usize, &Vec<u8>) -> (D, Result<(), String>),
>(
    allocate: A,
    read: R,
    write: W,
    allocations: Seq<VulkanDistributedParameterAllocationModel>,
    from: D,
) -> bool {
    forall|buffers: Seq<VulkanDistributedParameterBufferAllocationModel>, at: D|
        placing_fault_from(allocations, 0, 0) is None && #[trigger] allocated_by(
            allocate,
            allocations,
            buffers,
            from,
            at,
        ) ==> buffers_can_be_filled(read, write, allocations, buffers, at)
}

/// Asks every device for its allocations.
fn allocate_arenas<
    D,
    A: Fn(D, &String, &Vec<usize>) -> (
        D,
        Result<Vec<VulkanArenaAllocation>, VulkanDeviceFailure>,
    ),
>(
    plan: &VulkanDistributedParameterAllocationPlan,
    devices: D,
    allocate: &A,
) -> (result: (
    Result<
        Vec<VulkanDistributedParameterBufferAllocation>,
        VulkanDistributedParameterBufferError,
    >,
    D,
))
    requires
        placing_fault_from(plan.deep_view().allocations, 0, 0) is None,
        arenas_can_be_asked(*allocate, plan.deep_view().allocations, devices),
    ensures
        match result.0 {
            Ok(buffers) => allocated_by(
                *allocate,
                plan.deep_view().allocations,
                buffers.deep_view(),
                devices,
                result.1,
            ),
            Err(error) => allocation_can_fail(
                *allocate,
                plan.deep_view().allocations,
                error.0@,
                devices,
                result.1,
            ),
        },
{
    let ghost all = plan.deep_view().allocations;
    let groups = list_device_groups(plan);
    let ghost requests = arena_requests(all);
    let ghost from = devices;
    let mut current = devices;
    let count: usize = groups.len();
    proof {
        assert(all.len() == plan.allocations.len());
        lemma_requests_name_allocations(all);
    }
    let mut given: Vec<Vec<VulkanArenaAllocation>> = Vec::new();
    for group in 0..count
        invariant
            placing_fault_from(all, 0, 0) is None,
            arenas_can_be_asked(*allocate, all, from),
            from == devices,
            all == plan.deep_view().allocations,
            all.len() == plan.allocations.len(),
            requests == arena_requests(all),
            requests == groups.listing(),
            count == requests.len(),
            forall|g: int, k: int|
                #![trigger requests[g].1[k]]
                0 <= g < requests.len() && 0 <= k < requests[g].1.len() ==> requests[g].1[k]
                    < all.len(),
            given.len() == group,
            arenas_gave(*allocate, all, given@, from, current),
    {
        let device_id = groups.key_at(group);
        let indices = groups.value_at(group);
        proof {
            assert forall|k: int| 0 <= k < indices.len() implies #[trigger] indices@[k]
                < plan.allocations.len() by {
                assert(indices.deep_view()[k] == indices@[k]);
                assert(requests[group as int].1[k] == indices@[k]);
            }
        }
        let bytes = list_requested_bytes(plan, indices);
        let ghost at = current;
        let (left, arenas) = allocate(current, device_id, &bytes);
        current = left;
        proof {
            assert(call_ensures(*allocate, (at, device_id, &bytes), (current, arenas)));
            assert(arena_gave(*allocate, at, all, requests[group as int], current, arenas));
        }
        match arenas {
            Err(failure) => {
                let ghost failed = failure;
                let text = match failure {
                    VulkanDeviceFailure::Unresolved { reason } => join4(
                        "failed to resolve distributed parameter device ",
                        quoted(device_id.as_str()).as_str(),
                        ": ",
                        reason.as_str(),
                    ),
                    VulkanDeviceFailure::Failed { reason } => reason,
                };
                proof {
                    assert(text@ == parameter_device_text(requests[group as int].0, failed));
                    assert(allocation_failed(*allocate, all, given@, text@, from, current));
                }
                return (Err(VulkanDistributedParameterBufferError(text)), current);
            },
            Ok(parts) => {
                let ghost earlier = given@;
                given.push(parts);
                assert(given@.drop_last() =~= earlier);
                assert(arena_gave(
                    *allocate,
                    at,
                    all,
                    requests[given@.len() - 1],
                    current,
                    Ok::<Vec<VulkanArenaAllocation>, VulkanDeviceFailure>(given@.last()),
                ));
                assert(arenas_gave(*allocate, all, given@, from, current));
            },
        }
    }
    match take_given_buffers(plan, &given) {
        Ok(buffers) => {
            assert(arenas_gave(*allocate, all, given@, from, current));
            (Ok(buffers), current)
        },
        Err(error) => {
            assert(allocation_failed(*allocate, all, given@, error.0@, from, current));
            (Err(error), current)
        },
    }
}

/// The resident parameters of a plan are those that devices allocated and that were then
/// read and written.
pub open spec fn mounted_by<
    D,
    A: Fn(D, &String, &Vec<usize>) -> (
        D,
        Result<Vec<VulkanArenaAllocation>, VulkanDeviceFailure>,
    ),
    R: Fn(D, &String, &Vec<TensorStorageRange>) -> (D, Result<VulkanDistributedTensorRead, String>),
    W: Fn(D, &VulkanResidentBuffer, usize, &Vec<u8>) -> (D, Result<(), String>),
>(
    allocate: A,
    read: R,
    write: W,
    plan: VulkanDistributedParameterAllocationPlanModel,
    mounted: VulkanDistributedParameterBuffers,
    from: D,
    to: D,
) -> bool {
    &&& placing_fault_from(plan.allocations, 0, 0) is None
    &&& mounted.plan.deep_view() == plan
    &&& mounted.total_byte_capacity == sum_of(plan.allocations, allocation_bytes())
    &&& exists|at: D| #[trigger]
        allocated_by(allocate, plan.allocations, mounted.buffers.deep_view(), from, at)
            && filled_by(read, write, plan.allocations, mounted.buffers.deep_view(), at, to)
}

/// The devices can give buffers that cannot be loaded.
pub open spec fn loading_can_fail<
    D,
    A: Fn(D, &String, &Vec<usize>) -> (
        D,
        Result<Vec<VulkanArenaAllocation>, VulkanDeviceFailure>,
    ),
    R: Fn(D, &String, &Vec<TensorStorageRange>) -> (D, Result<VulkanDistributedTensorRead, String>),
    W: Fn(D, &VulkanResidentBuffer, usize, &Vec<u8>) -> (D, Result<(), String>),
>(
    allocate: A,
    read: R,
    write: W,
    allocations: Seq<VulkanDistributedParameterAllocationModel>,
    message: Seq<char>,
    from: D,
    to: D,
) -> bool {
    exists|buffers: Seq<VulkanDistributedParameterBufferAllocationModel>, at: D| #[trigger]
        allocated_by(allocate, allocations, buffers, from, at) && filling_can_fail(
            read,
            write,
            allocations,
            buffers,
            message,
            at,
            to,
        )
}

impl VulkanDistributedParameterBuffers {
    /// Makes the parameters of a plan resident: every device allocates its part, and
    /// the tensors are read and written to it. Where an allocation repeats or the bytes
    /// cannot be counted, no device is touched.
    pub fn allocate_and_load<
        D,
        A: Fn(D, &String, &Vec<usize>) -> (
            D,
            Result<Vec<VulkanArenaAllocation>, VulkanDeviceFailure>,
        ),
        R: Fn(D, &String, &Vec<TensorStorageRange>) -> (
            D,
            Result<VulkanDistributedTensorRead, String>,
        ),
        W: Fn(D, &VulkanResidentBuffer, usize, &Vec<u8>) -> (D, Result<(), String>),
    >(
        plan: &VulkanDistributedParameterAllocationPlan,
        devices: D,
        allocate: &A,
        read: &R,
        write: &W,
    ) -> (result: (Result<Self, VulkanDistributedParameterBufferError>, D))
        requires
            arenas_can_be_asked(*allocate, plan.deep_view().allocations, devices),
            arenas_can_be_filled(*allocate, *read, *write, plan.deep_view().allocations, devices),
        ensures
            match result.0 {
                Ok(mounted) => mounted_by(
                    *allocate,
                    *read,
                    *write,
                    plan.deep_view(),
                    mounted,
                    devices,
                    result.1,
                ),
                Err(error) => match placing_fault_from(plan.deep_view().allocations, 0, 0) {
                    Some(message) => error.0@ == message && result.1 == devices,
                    None => allocation_can_fail(
                        *allocate,
                        plan.deep_view().allocations,
                        error.0@,
                        devices,
                        result.1,
                    ) || loading_can_fail(
                        *allocate,
                        *read,
                        *write,
                        plan.deep_view().allocations,
                        error.0@,
                        devices,
                        result.1,
                    ),
                },
            },
    {
        let ghost all = plan.deep_view().allocations;
        let ghost from = devices;
        let (places, total_byte_capacity) = match place_allocations(plan) {
            Err(error) => {
                return (Err(error), devices);
            },
            Ok(placed) => placed,
        };
        proof {
            assert(all.len() == plan.allocations.len());
            assert forall|i: int| 0 <= i < all.len() implies !#[trigger] repeats(all, i) by {
                lemma_no_repeats(all, 0, 0, i);
            }
        }
        let (given, held) = allocate_arenas(plan, devices, allocate);
        let buffers = match given {
            Err(error) => {
                return (Err(error), held);
            },
            Ok(buffers) => buffers,
        };
        let ghost at = held;
        proof {
            let given = choose|given: Seq<Vec<VulkanArenaAllocation>>|
                given.len() == arena_requests(all).len() && #[trigger] arenas_gave(
                    *allocate,
                    all,
                    given,
                    from,
                    at,
                ) && missing_from(arena_slots(all, given), 0) is None && buffers.deep_view()
                    == complete(arena_slots(all, given));
            lemma_requests_name_allocations(all);
            lemma_slots_len(
                all,
                no_buffers(all.len()),
                arena_requests(all),
                arena_models(given),
                given.len(),
            );
            assert(buffers.deep_view().len() == buffers.len());
            assert forall|i: int| 0 <= i < all.len() implies buffers.deep_view()[i] == (
            #[trigger] targets_of(places.deep_view(), buffers.deep_view(), all)[i]) by {
                lemma_places(all, i);
            }
            assert(targets_of(places.deep_view(), buffers.deep_view(), all)
                =~= buffers.deep_view());
            assert forall|i: int| 0 <= i < plan.allocations.len() implies has_place(
                places.deep_view(),
                buffers.deep_view().len(),
                #[trigger] plan.deep_view().allocations[i],
            ) by {
                lemma_places(all, i);
            }
        }
        let (filled, left) = fill_buffers(
            plan,
            &buffers,
            &places,
            held,
            read,
            write,
            "distributed parameter buffer for tensor ",
        );
        match filled {
            Err(error) => {
                return (Err(error), left);
            },
            Ok(_) => {},
        }
        assert(filled_by(*read, *write, all, buffers.deep_view(), at, left));
        let mounted = VulkanDistributedParameterBuffers {
            plan: plan.duplicate(),
            buffers,
            total_byte_capacity,
        };
        assert(allocated_by(*allocate, all, mounted.buffers.deep_view(), from, at));
        (Ok(mounted), left)
    }
}

proof fn lemma_group_len(
    allocations: Seq<VulkanDistributedParameterAllocationModel>,
    slots: Seq<Option<VulkanDistributedParameterBufferAllocationModel>>,
    indices: Seq<usize>,
    arenas: Seq<VulkanArenaAllocation>,
    count: nat,
)
    requires
        count <= indices.len(),
        forall|k: int| 0 <= k < indices.len() ==> #[trigger] indices[k] < slots.len(),
    ensures
        group_filled(allocations, slots, indices, arenas, count).len() == slots.len(),
    decreases count,
{
    if count > 0 {
        lemma_group_len(allocations, slots, indices, arenas, (count - 1) as nat);
    }
}

pub proof fn lemma_slots_len(
    allocations: Seq<VulkanDistributedParameterAllocationModel>,
    start: Seq<Option<VulkanDistributedParameterBufferAllocationModel>>,
    groups: Seq<(Seq<char>, Seq<usize>)>,
    arenas: Seq<Seq<VulkanArenaAllocation>>,
    count: nat,
)
    requires
        count <= groups.len(),
        forall|g: int, k: int|
            #![trigger groups[g].1[k]]
            0 <= g < groups.len() && 0 <= k < groups[g].1.len() ==> groups[g].1[k] < start.len(),
    ensures
        groups_filled(allocations, start, groups, arenas, count).len() == start.len(),
    decreases count,
{
    if count > 0 {
        lemma_slots_len(allocations, start, groups, arenas, (count - 1) as nat);
        assert forall|k: int| 0 <= k < groups[count - 1].1.len() implies #[trigger] groups[count
            - 1].1[k] < start.len() by {}
        lemma_group_len(
            allocations,
            groups_filled(allocations, start, groups, arenas, (count - 1) as nat),
            groups[count - 1].1,
            arenas[count - 1],
            served_count(groups[count - 1].1, arenas[count - 1]),
        );
    }
}

} // verus!
