//! Loading of parameters: what is read and written, in which order.
//!
//! Reading and writing act on devices. The devices are handed to a call and come back from
//! it, so that one call after the other is made on them and none is made twice.
use vstd::prelude::*;

use crate::errors::VulkanDistributedParameterLoadError;
use crate::parameter_buffers::{
    after_ranges, after_read, after_tensor, after_writes, counted_up_to,
    law_schedules_serve_every_allocation, load_report, load_schedule, loaded, ranges_of,
    read_models, schedule_is_sound, written_ranges, LoadProgress, LoadProgressModel,
    TensorStorageRange, VulkanDistributedParameterLoadReport, VulkanDistributedRangeLoadModel,
    VulkanDistributedTensorLoad, VulkanDistributedTensorLoadModel, VulkanDistributedTensorRead,
    VulkanDistributedTensorReadModel,
};
use crate::parameter_plans::{
    VulkanDistributedParameterAllocation, VulkanDistributedParameterAllocationModel,
    VulkanDistributedParameterAllocationPlan, VulkanDistributedParameterAllocationPlanModel,
};

verus! {

/// What writes can come to: the devices before a write, the index of the allocation, the
/// bytes, the devices after it, and its outcome with the text of an error.
pub type WriteRelation<D> = spec_fn(D, usize, Seq<u8>, D, Result<(), Seq<char>>) -> bool;

/// Which writes may be made: on which devices, to which allocation, with which bytes.
pub type WritePermission<D> = spec_fn(D, usize, Seq<u8>) -> bool;

/// The outcome with the text of its error.
pub open spec fn told<T>(outcome: Result<T, String>) -> Result<T, Seq<char>> {
    match outcome {
        Ok(value) => Ok(value),
        Err(text) => Err(text@),
    }
}

/// The outcome of a write with the text of its error.
pub open spec fn write_told(
    outcome: Result<(), VulkanDistributedParameterLoadError>,
) -> Result<(), Seq<char>> {
    match outcome {
        Ok(_) => Ok(()),
        Err(error) => Err(error.0@),
    }
}

/// Reading the ranges of a load on devices gave an outcome and left the devices so.
pub open spec fn read_gave<
    D,
    R: Fn(D, &String, &Vec<TensorStorageRange>) -> (D, Result<VulkanDistributedTensorRead, String>),
>(
    read: R,
    from: D,
    load: VulkanDistributedTensorLoadModel,
    to: D,
    outcome: Result<VulkanDistributedTensorRead, Seq<char>>,
) -> bool {
    exists|
        tensor: &String,
        ranges: &Vec<TensorStorageRange>,
        given: Result<VulkanDistributedTensorRead, String>,
    |
        tensor@ == load.tensor && ranges@ == ranges_of(load) && #[trigger] call_ensures(
            read,
            (from, tensor, ranges),
            (to, given),
        ) && outcome == told(given)
}

/// The payload of a range was written to its first allocations in turn.
pub open spec fn range_was_written<D>(
    writes: WriteRelation<D>,
    range: VulkanDistributedRangeLoadModel,
    payload: Seq<u8>,
    count: nat,
    from: D,
    to: D,
) -> bool
    decreases count,
{
    if count == 0 {
        from == to
    } else {
        exists|at: D| #[trigger]
            writes(
                at,
                range.allocation_indices[count - 1],
                payload,
                to,
                Ok::<(), Seq<char>>(()),
            ) && range_was_written(writes, range, payload, (count - 1) as nat, from, at)
    }
}

/// The first ranges of what was read of a tensor were written in turn.
pub open spec fn tensor_was_written<D>(
    writes: WriteRelation<D>,
    load: VulkanDistributedTensorLoadModel,
    read: VulkanDistributedTensorReadModel,
    count: nat,
    from: D,
    to: D,
) -> bool
    decreases count,
{
    if count == 0 {
        from == to
    } else {
        exists|at: D| #[trigger]
            range_was_written(
                writes,
                load.ranges[count - 1],
                read.payloads[count - 1],
                load.ranges[count - 1].allocation_indices.len(),
                at,
                to,
            ) && tensor_was_written(writes, load, read, (count - 1) as nat, from, at)
    }
}

/// The first tensors of a schedule were loaded in turn: each was read and then written.
pub open spec fn tensors_were_loaded<
    D,
    R: Fn(D, &String, &Vec<TensorStorageRange>) -> (D, Result<VulkanDistributedTensorRead, String>),
>(
    read: R,
    writes: WriteRelation<D>,
    loads: Seq<VulkanDistributedTensorLoadModel>,
    reads: Seq<VulkanDistributedTensorRead>,
    from: D,
    to: D,
) -> bool
    decreases reads.len(),
{
    if reads.len() == 0 {
        from == to
    } else {
        let load = loads[reads.len() - 1];
        exists|at: D, after: D| #[trigger]
            read_gave(
                read,
                at,
                load,
                after,
                Ok::<VulkanDistributedTensorRead, Seq<char>>(reads.last()),
            ) && tensors_were_loaded(read, writes, loads, reads.drop_last(), from, at)
                && tensor_was_written(
                writes,
                load,
                reads.last().deep_view(),
                written_ranges(load, reads.last().deep_view()),
                after,
                to,
            )
    }
}

/// The first tensors of a schedule were loaded and counted.
pub open spec fn loaded_so_far<
    D,
    R: Fn(D, &String, &Vec<TensorStorageRange>) -> (D, Result<VulkanDistributedTensorRead, String>),
>(
    read: R,
    writes: WriteRelation<D>,
    loads: Seq<VulkanDistributedTensorLoadModel>,
    reads: Seq<VulkanDistributedTensorRead>,
    from: D,
    to: D,
) -> bool {
    &&& reads.len() <= loads.len()
    &&& tensors_were_loaded(read, writes, loads, reads, from, to)
    &&& loaded(loads, read_models(reads)) is Ok
}

/// Writing what was read of a tensor has come to an allocation of one of its ranges:
/// everything before it was written and counted.
pub open spec fn written_up_to<D>(
    writes: WriteRelation<D>,
    progress: LoadProgressModel,
    load: VulkanDistributedTensorLoadModel,
    read: VulkanDistributedTensorReadModel,
    range: int,
    place: int,
    from: D,
    to: D,
) -> bool {
    &&& 0 <= range < written_ranges(load, read)
    &&& 0 <= place < load.ranges[range].allocation_indices.len()
    &&& counted_up_to(progress, load, read, range, place)
    &&& exists|at: D| #[trigger]
        tensor_was_written(writes, load, read, range as nat, from, at) && range_was_written(
            writes,
            load.ranges[range],
            read.payloads[range],
            place as nat,
            at,
            to,
        )
}

/// The write to an allocation of a range failed, or was made and cannot be counted.
pub open spec fn last_write_failed<D>(
    writes: WriteRelation<D>,
    progress: LoadProgressModel,
    load: VulkanDistributedTensorLoadModel,
    read: VulkanDistributedTensorReadModel,
    range: int,
    place: int,
    message: Seq<char>,
    from: D,
    to: D,
) -> bool {
    let index = load.ranges[range].allocation_indices[place];
    let payload = read.payloads[range];
    ||| writes(from, index, payload, to, Err::<(), Seq<char>>(message))
    ||| writes(from, index, payload, to, Ok::<(), Seq<char>>(())) && after_writes(
        after_ranges(after_read(progress, read), load, read, range as nat),
        payload.len(),
        (place + 1) as nat,
    ) == Err::<LoadProgressModel, Seq<char>>(message)
}

/// Why what was read of a tensor was not written: it cannot be counted, and nothing was
/// written; or one write failed or cannot be counted, after everything before it was made.
pub open spec fn writing_stopped<D>(
    writes: WriteRelation<D>,
    progress: LoadProgressModel,
    load: VulkanDistributedTensorLoadModel,
    read: VulkanDistributedTensorReadModel,
    message: Seq<char>,
    from: D,
    to: D,
) -> bool {
    ||| after_read(progress, read) == Err::<LoadProgressModel, Seq<char>>(message) && from == to
    ||| exists|range: int, place: int, at: D| #[trigger]
        written_up_to(writes, progress, load, read, range, place, from, at) && last_write_failed(
            writes,
            progress,
            load,
            read,
            range,
            place,
            message,
            at,
            to,
        )
}

/// How loading a schedule succeeded: every tensor was read once, every range that was read
/// was written to each of its allocations, everything in its order and nothing besides.
pub open spec fn load_succeeded<
    D,
    R: Fn(D, &String, &Vec<TensorStorageRange>) -> (D, Result<VulkanDistributedTensorRead, String>),
>(
    read: R,
    writes: WriteRelation<D>,
    loads: Seq<VulkanDistributedTensorLoadModel>,
    reads: Seq<VulkanDistributedTensorRead>,
    from: D,
    to: D,
) -> bool {
    reads.len() == loads.len() && loaded_so_far(read, writes, loads, reads, from, to)
}

/// Why loading a schedule failed: the next tensor could not be read, or what was read last
/// was not written. Everything before was loaded, and nothing after it was touched.
pub open spec fn load_failed<
    D,
    R: Fn(D, &String, &Vec<TensorStorageRange>) -> (D, Result<VulkanDistributedTensorRead, String>),
>(
    read: R,
    writes: WriteRelation<D>,
    loads: Seq<VulkanDistributedTensorLoadModel>,
    reads: Seq<VulkanDistributedTensorRead>,
    message: Seq<char>,
    from: D,
    to: D,
) -> bool {
    ||| reads.len() < loads.len() && exists|at: D| #[trigger]
        loaded_so_far(read, writes, loads, reads, from, at) && read_gave(
            read,
            at,
            loads[reads.len() as int],
            to,
            Err::<VulkanDistributedTensorRead, Seq<char>>(message),
        )
    ||| reads.len() > 0 && exists|at: D, after: D| #[trigger]
        tensor_was_read(read, writes, loads, reads, from, at, after) && writing_stopped(
            writes,
            loaded(loads, read_models(reads.drop_last()))->Ok_0,
            loads[reads.len() - 1],
            reads.last().deep_view(),
            message,
            after,
            to,
        )
}

/// The last of the first tensors of a schedule was read; those before it were loaded.
pub open spec fn tensor_was_read<
    D,
    R: Fn(D, &String, &Vec<TensorStorageRange>) -> (D, Result<VulkanDistributedTensorRead, String>),
>(
    read: R,
    writes: WriteRelation<D>,
    loads: Seq<VulkanDistributedTensorLoadModel>,
    reads: Seq<VulkanDistributedTensorRead>,
    from: D,
    at: D,
    after: D,
) -> bool {
    &&& 0 < reads.len() <= loads.len()
    &&& loaded_so_far(read, writes, loads, reads.drop_last(), from, at)
    &&& read_gave(
        read,
        at,
        loads[reads.len() - 1],
        after,
        Ok::<VulkanDistributedTensorRead, Seq<char>>(reads.last()),
    )
}

/// Loading has come to an allocation of a range of the tensor that was read last.
pub open spec fn write_is_due<
    D,
    R: Fn(D, &String, &Vec<TensorStorageRange>) -> (D, Result<VulkanDistributedTensorRead, String>),
>(
    read: R,
    writes: WriteRelation<D>,
    loads: Seq<VulkanDistributedTensorLoadModel>,
    reads: Seq<VulkanDistributedTensorRead>,
    range: int,
    place: int,
    from: D,
    to: D,
) -> bool {
    exists|at: D, after: D| #[trigger]
        tensor_was_read(read, writes, loads, reads, from, at, after) && written_up_to(
            writes,
            loaded(loads, read_models(reads.drop_last()))->Ok_0,
            loads[reads.len() - 1],
            reads.last().deep_view(),
            range,
            place,
            after,
            to,
        )
}

/// A schedule may be loaded on devices: each tensor with its ranges is read once everything
/// before it was loaded, and the payload of each range that was read is written to each
/// allocation of the range, in their order. Nothing else is read or written.
pub open spec fn can_be_loaded<
    D,
    R: Fn(D, &String, &Vec<TensorStorageRange>) -> (D, Result<VulkanDistributedTensorRead, String>),
>(
    read: R,
    writes: WriteRelation<D>,
    permitted: WritePermission<D>,
    loads: Seq<VulkanDistributedTensorLoadModel>,
    from: D,
) -> bool {
    &&& forall|
        reads: Seq<VulkanDistributedTensorRead>,
        at: D,
        tensor: &String,
        ranges: &Vec<TensorStorageRange>,
    |
        #![trigger loaded_so_far(read, writes, loads, reads, from, at), call_requires(read, (at, tensor, ranges))]
        loaded_so_far(read, writes, loads, reads, from, at) && reads.len() < loads.len() && tensor@
            == loads[reads.len() as int].tensor && ranges@ == ranges_of(
            loads[reads.len() as int],
        ) ==> call_requires(read, (at, tensor, ranges))
    &&& forall|reads: Seq<VulkanDistributedTensorRead>, range: int, place: int, at: D| #[trigger]
        write_is_due(read, writes, loads, reads, range, place, from, at) ==> permitted(
            at,
            loads[reads.len() - 1].ranges[range].allocation_indices[place],
            reads.last().deep_view().payloads[range],
        )
}

/// What writing to the allocations of a plan can come to.
pub open spec fn allocation_writes<
    D,
    W: Fn(D, &VulkanDistributedParameterAllocation, &Vec<u8>) -> (
        D,
        Result<(), VulkanDistributedParameterLoadError>,
    ),
>(
    write: W,
    allocations: Seq<VulkanDistributedParameterAllocationModel>,
) -> WriteRelation<D> {
    |from: D, index: usize, payload: Seq<u8>, to: D, outcome: Result<(), Seq<char>>|
        write_gave(write, from, allocations[index as int], payload, to, outcome)
}

/// Writing bytes to an allocation on devices gave an outcome and left the devices so.
pub open spec fn write_gave<
    D,
    W: Fn(D, &VulkanDistributedParameterAllocation, &Vec<u8>) -> (
        D,
        Result<(), VulkanDistributedParameterLoadError>,
    ),
>(
    write: W,
    from: D,
    allocation: VulkanDistributedParameterAllocationModel,
    payload: Seq<u8>,
    to: D,
    outcome: Result<(), Seq<char>>,
) -> bool {
    exists|
        target: &VulkanDistributedParameterAllocation,
        bytes: &Vec<u8>,
        given: Result<(), VulkanDistributedParameterLoadError>,
    |
        target.deep_view() == allocation && bytes.deep_view() == payload && #[trigger] call_ensures(
            write,
            (from, target, bytes),
            (to, given),
        ) && outcome == write_told(given)
}

/// Which writes may be made to the allocations of a plan.
pub open spec fn allocation_permission<
    D,
    W: Fn(D, &VulkanDistributedParameterAllocation, &Vec<u8>) -> (
        D,
        Result<(), VulkanDistributedParameterLoadError>,
    ),
>(
    write: W,
    allocations: Seq<VulkanDistributedParameterAllocationModel>,
) -> WritePermission<D> {
    |at: D, index: usize, payload: Seq<u8>|
        write_can_be_made(write, at, allocations[index as int], payload)
}

/// Bytes may be written to an allocation on devices.
pub open spec fn write_can_be_made<
    D,
    W: Fn(D, &VulkanDistributedParameterAllocation, &Vec<u8>) -> (
        D,
        Result<(), VulkanDistributedParameterLoadError>,
    ),
>(
    write: W,
    at: D,
    allocation: VulkanDistributedParameterAllocationModel,
    payload: Seq<u8>,
) -> bool {
    forall|target: &VulkanDistributedParameterAllocation, bytes: &Vec<u8>|
        target.deep_view() == allocation && bytes.deep_view() == payload ==> #[trigger]
            call_requires(write, (at, target, bytes))
}

/// Some reads account for the success of loading.
pub open spec fn can_succeed<
    D,
    R: Fn(D, &String, &Vec<TensorStorageRange>) -> (D, Result<VulkanDistributedTensorRead, String>),
>(
    read: R,
    writes: WriteRelation<D>,
    plan: VulkanDistributedParameterAllocationPlanModel,
    report: VulkanDistributedParameterLoadReport,
    from: D,
    to: D,
) -> bool {
    let loads = load_schedule(plan.allocations);
    exists|reads: Seq<VulkanDistributedTensorRead>| #[trigger]
        load_succeeded(read, writes, loads, reads, from, to) && report == load_report(
            plan,
            loaded(loads, read_models(reads))->Ok_0,
        )
}

/// Some reads account for the failure of loading.
pub open spec fn can_fail<
    D,
    R: Fn(D, &String, &Vec<TensorStorageRange>) -> (D, Result<VulkanDistributedTensorRead, String>),
>(
    read: R,
    writes: WriteRelation<D>,
    loads: Seq<VulkanDistributedTensorLoadModel>,
    message: Seq<char>,
    from: D,
    to: D,
) -> bool {
    exists|reads: Seq<VulkanDistributedTensorRead>| #[trigger]
        load_failed(read, writes, loads, reads, message, from, to)
}

/// Whatever the first relation has of writes to the first allocations, the second has.
pub open spec fn widens<D>(writes: WriteRelation<D>, wider: WriteRelation<D>, count: nat) -> bool {
    forall|from: D, index: usize, payload: Seq<u8>, to: D, outcome: Result<(), Seq<char>>|
        index < count && #[trigger] writes(from, index, payload, to, outcome) ==> wider(
            from,
            index,
            payload,
            to,
            outcome,
        )
}

/// The indices of a load name the first allocations.
pub open spec fn load_names(load: VulkanDistributedTensorLoadModel, count: nat) -> bool {
    forall|j: int, k: int|
        #![trigger load.ranges[j].allocation_indices[k]]
        0 <= j < load.ranges.len() && 0 <= k < load.ranges[j].allocation_indices.len()
            ==> load.ranges[j].allocation_indices[k] < count
}

/// The indices of a schedule name the first allocations.
pub open spec fn loads_name(loads: Seq<VulkanDistributedTensorLoadModel>, count: nat) -> bool {
    forall|i: int| 0 <= i < loads.len() ==> load_names(#[trigger] loads[i], count)
}

proof fn lemma_range_widens<D>(
    writes: WriteRelation<D>,
    wider: WriteRelation<D>,
    allocation_count: nat,
    load: VulkanDistributedTensorLoadModel,
    range: int,
    payload: Seq<u8>,
    count: nat,
    from: D,
    to: D,
)
    requires
        widens(writes, wider, allocation_count),
        load_names(load, allocation_count),
        0 <= range < load.ranges.len(),
        count <= load.ranges[range].allocation_indices.len(),
        range_was_written(writes, load.ranges[range], payload, count, from, to),
    ensures
        range_was_written(wider, load.ranges[range], payload, count, from, to),
    decreases count,
{
    if count > 0 {
        let index = load.ranges[range].allocation_indices[count - 1];
        let at = choose|at: D| #[trigger]
            writes(at, index, payload, to, Ok::<(), Seq<char>>(())) && range_was_written(
                writes,
                load.ranges[range],
                payload,
                (count - 1) as nat,
                from,
                at,
            );
        lemma_range_widens(
            writes,
            wider,
            allocation_count,
            load,
            range,
            payload,
            (count - 1) as nat,
            from,
            at,
        );
        assert(wider(at, index, payload, to, Ok::<(), Seq<char>>(())));
    }
}

proof fn lemma_tensor_widens<D>(
    writes: WriteRelation<D>,
    wider: WriteRelation<D>,
    allocation_count: nat,
    load: VulkanDistributedTensorLoadModel,
    read: VulkanDistributedTensorReadModel,
    count: nat,
    from: D,
    to: D,
)
    requires
        widens(writes, wider, allocation_count),
        load_names(load, allocation_count),
        count <= load.ranges.len(),
        tensor_was_written(writes, load, read, count, from, to),
    ensures
        tensor_was_written(wider, load, read, count, from, to),
    decreases count,
{
    if count > 0 {
        let earlier = (count - 1) as nat;
        let at = choose|at: D| #[trigger]
            range_was_written(
                writes,
                load.ranges[count - 1],
                read.payloads[count - 1],
                load.ranges[count - 1].allocation_indices.len(),
                at,
                to,
            ) && tensor_was_written(writes, load, read, earlier, from, at);
        lemma_tensor_widens(writes, wider, allocation_count, load, read, earlier, from, at);
        lemma_range_widens(
            writes,
            wider,
            allocation_count,
            load,
            count - 1,
            read.payloads[count - 1],
            load.ranges[count - 1].allocation_indices.len(),
            at,
            to,
        );
    }
}

/// What was loaded by writes of the first relation was loaded by writes of the second.
pub proof fn lemma_loads_widen<
    D,
    R: Fn(D, &String, &Vec<TensorStorageRange>) -> (D, Result<VulkanDistributedTensorRead, String>),
>(
    read: R,
    writes: WriteRelation<D>,
    wider: WriteRelation<D>,
    allocation_count: nat,
    loads: Seq<VulkanDistributedTensorLoadModel>,
    reads: Seq<VulkanDistributedTensorRead>,
    from: D,
    to: D,
)
    requires
        widens(writes, wider, allocation_count),
        loads_name(loads, allocation_count),
        loaded_so_far(read, writes, loads, reads, from, to),
    ensures
        loaded_so_far(read, wider, loads, reads, from, to),
    decreases reads.len(),
{
    if reads.len() > 0 {
        let load = loads[reads.len() - 1];
        let last = reads.last().deep_view();
        let earlier = reads.drop_last();
        let (at, after) = choose|at: D, after: D| #[trigger]
            read_gave(
                read,
                at,
                load,
                after,
                Ok::<VulkanDistributedTensorRead, Seq<char>>(reads.last()),
            ) && tensors_were_loaded(read, writes, loads, earlier, from, at) && tensor_was_written(
                writes,
                load,
                last,
                written_ranges(load, last),
                after,
                to,
            );
        assert(read_models(reads).drop_last() =~= read_models(earlier));
        lemma_loads_widen(read, writes, wider, allocation_count, loads, earlier, from, at);
        lemma_tensor_widens(
            writes,
            wider,
            allocation_count,
            load,
            last,
            written_ranges(load, last),
            after,
            to,
        );
    }
}

proof fn lemma_progress_widens<D>(
    writes: WriteRelation<D>,
    wider: WriteRelation<D>,
    allocation_count: nat,
    progress: LoadProgressModel,
    load: VulkanDistributedTensorLoadModel,
    read: VulkanDistributedTensorReadModel,
    range: int,
    place: int,
    from: D,
    to: D,
)
    requires
        widens(writes, wider, allocation_count),
        load_names(load, allocation_count),
        written_up_to(writes, progress, load, read, range, place, from, to),
    ensures
        written_up_to(wider, progress, load, read, range, place, from, to),
{
    let at = choose|at: D| #[trigger]
        tensor_was_written(writes, load, read, range as nat, from, at) && range_was_written(
            writes,
            load.ranges[range],
            read.payloads[range],
            place as nat,
            at,
            to,
        );
    lemma_tensor_widens(writes, wider, allocation_count, load, read, range as nat, from, at);
    lemma_range_widens(
        writes,
        wider,
        allocation_count,
        load,
        range,
        read.payloads[range],
        place as nat,
        at,
        to,
    );
}

/// Where loading by writes of the first relation has come to an allocation, loading by
/// writes of the second has.
pub proof fn lemma_due_write_widens<
    D,
    R: Fn(D, &String, &Vec<TensorStorageRange>) -> (D, Result<VulkanDistributedTensorRead, String>),
>(
    read: R,
    writes: WriteRelation<D>,
    wider: WriteRelation<D>,
    allocation_count: nat,
    loads: Seq<VulkanDistributedTensorLoadModel>,
    reads: Seq<VulkanDistributedTensorRead>,
    range: int,
    place: int,
    from: D,
    to: D,
)
    requires
        widens(writes, wider, allocation_count),
        loads_name(loads, allocation_count),
        write_is_due(read, writes, loads, reads, range, place, from, to),
    ensures
        write_is_due(read, wider, loads, reads, range, place, from, to),
        loads[reads.len() - 1].ranges[range].allocation_indices[place] < allocation_count,
{
    let load = loads[reads.len() - 1];
    let last = reads.last().deep_view();
    let progress = loaded(loads, read_models(reads.drop_last()))->Ok_0;
    let (at, after) = choose|at: D, after: D| #[trigger]
        tensor_was_read(read, writes, loads, reads, from, at, after) && written_up_to(
            writes,
            progress,
            load,
            last,
            range,
            place,
            after,
            to,
        );
    lemma_loads_widen(read, writes, wider, allocation_count, loads, reads.drop_last(), from, at);
    lemma_progress_widens(
        writes,
        wider,
        allocation_count,
        progress,
        load,
        last,
        range,
        place,
        after,
        to,
    );
    assert(tensor_was_read(read, wider, loads, reads, from, at, after));
}

/// What stopped loading by writes of the first relation stops it by writes of the second.
pub proof fn lemma_failure_widens<
    D,
    R: Fn(D, &String, &Vec<TensorStorageRange>) -> (D, Result<VulkanDistributedTensorRead, String>),
>(
    read: R,
    writes: WriteRelation<D>,
    wider: WriteRelation<D>,
    allocation_count: nat,
    loads: Seq<VulkanDistributedTensorLoadModel>,
    message: Seq<char>,
    from: D,
    to: D,
)
    requires
        widens(writes, wider, allocation_count),
        loads_name(loads, allocation_count),
        can_fail(read, writes, loads, message, from, to),
    ensures
        can_fail(read, wider, loads, message, from, to),
{
    let reads = choose|reads: Seq<VulkanDistributedTensorRead>| #[trigger]
        load_failed(read, writes, loads, reads, message, from, to);
    let earlier = reads.drop_last();
    let load = loads[reads.len() - 1];
    let last = reads.last().deep_view();
    let progress = loaded(loads, read_models(earlier))->Ok_0;
    if reads.len() > 0 && exists|at: D, after: D| #[trigger]
        tensor_was_read(read, writes, loads, reads, from, at, after) && writing_stopped(
            writes,
            progress,
            load,
            last,
            message,
            after,
            to,
        ) {
        let (at, after) = choose|at: D, after: D| #[trigger]
            tensor_was_read(read, writes, loads, reads, from, at, after) && writing_stopped(
                writes,
                progress,
                load,
                last,
                message,
                after,
                to,
            );
        lemma_loads_widen(read, writes, wider, allocation_count, loads, earlier, from, at);
        assert(tensor_was_read(read, wider, loads, reads, from, at, after));
        if !(after_read(progress, last) == Err::<LoadProgressModel, Seq<char>>(message) && after
            == to) {
            let (range, place, reached) = choose|range: int, place: int, reached: D| #[trigger]
                written_up_to(writes, progress, load, last, range, place, after, reached)
                    && last_write_failed(
                    writes,
                    progress,
                    load,
                    last,
                    range,
                    place,
                    message,
                    reached,
                    to,
                );
            lemma_progress_widens(
                writes,
                wider,
                allocation_count,
                progress,
                load,
                last,
                range,
                place,
                after,
                reached,
            );
            assert(load.ranges[range].allocation_indices[place] < allocation_count);
            assert(last_write_failed(
                wider,
                progress,
                load,
                last,
                range,
                place,
                message,
                reached,
                to,
            ));
        }
        assert(writing_stopped(wider, progress, load, last, message, after, to));
    } else {
        let at = choose|at: D| #[trigger]
            loaded_so_far(read, writes, loads, reads, from, at) && read_gave(
                read,
                at,
                loads[reads.len() as int],
                to,
                Err::<VulkanDistributedTensorRead, Seq<char>>(message),
            );
        lemma_loads_widen(read, writes, wider, allocation_count, loads, reads, from, at);
    }
    assert(load_failed(read, wider, loads, reads, message, from, to));
}

proof fn lemma_tensor_step<D>(
    writes: WriteRelation<D>,
    load: VulkanDistributedTensorLoadModel,
    read: VulkanDistributedTensorReadModel,
    count: nat,
    from: D,
    at: D,
    to: D,
)
    requires
        tensor_was_written(writes, load, read, count, from, at),
        range_was_written(
            writes,
            load.ranges[count as int],
            read.payloads[count as int],
            load.ranges[count as int].allocation_indices.len(),
            at,
            to,
        ),
    ensures
        tensor_was_written(writes, load, read, count + 1, from, to),
{
    let next = count + 1;
    assert(range_was_written(
        writes,
        load.ranges[next - 1],
        read.payloads[next - 1],
        load.ranges[next - 1].allocation_indices.len(),
        at,
        to,
    ) && tensor_was_written(writes, load, read, (next - 1) as nat, from, at));
}

/// Writes what was read of a tensor to the allocations of its ranges.
fn write_tensor<
    D,
    W: Fn(D, &VulkanDistributedParameterAllocation, &Vec<u8>) -> (
        D,
        Result<(), VulkanDistributedParameterLoadError>,
    ),
>(
    plan: &VulkanDistributedParameterAllocationPlan,
    load: &VulkanDistributedTensorLoad,
    read: &VulkanDistributedTensorRead,
    devices: D,
    write: &W,
    progress: &mut LoadProgress,
) -> (result: (Result<(), VulkanDistributedParameterLoadError>, D))
    requires
        forall|range: int, place: int, at: D| #[trigger]
            written_up_to(
                allocation_writes(*write, plan.deep_view().allocations),
                old(progress).deep_view(),
                load.deep_view(),
                read.deep_view(),
                range,
                place,
                devices,
                at,
            ) ==> write_can_be_made(
                *write,
                at,
                plan.deep_view().allocations[load.deep_view().ranges[range].allocation_indices[place] as int],
                read.deep_view().payloads[range],
            ),
        forall|j: int, k: int|
            #![trigger load.deep_view().ranges[j].allocation_indices[k]]
            0 <= j < load.deep_view().ranges.len() && 0 <= k
                < load.deep_view().ranges[j].allocation_indices.len()
                ==> load.deep_view().ranges[j].allocation_indices[k] < plan.allocations.len(),
    ensures
        match result.0 {
            Ok(_) => after_tensor(old(progress).deep_view(), load.deep_view(), read.deep_view())
                == Ok::<LoadProgressModel, Seq<char>>(final(progress).deep_view())
                && tensor_was_written(
                allocation_writes(*write, plan.deep_view().allocations),
                load.deep_view(),
                read.deep_view(),
                written_ranges(load.deep_view(), read.deep_view()),
                devices,
                result.1,
            ),
            Err(error) => writing_stopped(
                allocation_writes(*write, plan.deep_view().allocations),
                old(progress).deep_view(),
                load.deep_view(),
                read.deep_view(),
                error.0@,
                devices,
                result.1,
            ),
        },
{
    let ghost all = plan.deep_view().allocations;
    let ghost load_model = load.deep_view();
    let ghost read_model = read.deep_view();
    let ghost writes = allocation_writes(*write, all);
    let ghost first = progress.deep_view();
    let ghost from = devices;
    let mut current = devices;
    match progress.note_read(read) {
        Err(error) => {
            return (Err(error), current);
        },
        Ok(_) => {},
    }
    let ghost start = after_read(first, read_model);
    let ghost range_count = written_ranges(load_model, read_model);
    let mut range_index: usize = 0;
    while range_index < load.ranges.len() && range_index < read.payloads.len()
        invariant
            forall|range: int, place: int, at: D| #[trigger]
                written_up_to(writes, first, load_model, read_model, range, place, from, at)
                    ==> write_can_be_made(
                    *write,
                    at,
                    all[load_model.ranges[range].allocation_indices[place] as int],
                    read_model.payloads[range],
                ),
            forall|j: int, k: int|
                #![trigger load_model.ranges[j].allocation_indices[k]]
                0 <= j < load_model.ranges.len() && 0 <= k
                    < load_model.ranges[j].allocation_indices.len()
                    ==> load_model.ranges[j].allocation_indices[k] < plan.allocations.len(),
            all == plan.deep_view().allocations,
            all == plan.allocations.deep_view(),
            writes == allocation_writes(*write, all),
            load_model == load.deep_view(),
            read_model == read.deep_view(),
            first == old(progress).deep_view(),
            from == devices,
            start == after_read(first, read_model),
            start is Ok,
            range_count == written_ranges(load_model, read_model),
            range_index <= range_count,
            after_ranges(start, load_model, read_model, range_index as nat) == Ok::<
                LoadProgressModel,
                Seq<char>,
            >(progress.deep_view()),
            tensor_was_written(writes, load_model, read_model, range_index as nat, from, current),
        decreases load.ranges.len() - range_index,
    {
        let range = &load.ranges[range_index];
        let payload = &read.payloads[range_index];
        let ghost range_model = load_model.ranges[range_index as int];
        let ghost payload_model = read_model.payloads[range_index as int];
        assert(range_model == range.deep_view());
        assert(payload_model == payload.deep_view());
        let ghost before = after_ranges(start, load_model, read_model, range_index as nat);
        let ghost begun = current;
        for index in 0..range.allocation_indices.len()
            invariant
                forall|range: int, place: int, at: D| #[trigger]
                    written_up_to(writes, first, load_model, read_model, range, place, from, at)
                        ==> write_can_be_made(
                        *write,
                        at,
                        all[load_model.ranges[range].allocation_indices[place] as int],
                        read_model.payloads[range],
                    ),
                forall|j: int, k: int|
                    #![trigger load_model.ranges[j].allocation_indices[k]]
                    0 <= j < load_model.ranges.len() && 0 <= k
                        < load_model.ranges[j].allocation_indices.len()
                        ==> load_model.ranges[j].allocation_indices[k] < plan.allocations.len(),
                all == plan.deep_view().allocations,
                all == plan.allocations.deep_view(),
                writes == allocation_writes(*write, all),
                load_model == load.deep_view(),
                read_model == read.deep_view(),
                first == old(progress).deep_view(),
                from == devices,
                start == after_read(first, read_model),
                start is Ok,
                0 <= range_index < range_count,
                range_count == written_ranges(load_model, read_model),
                range_model == load_model.ranges[range_index as int],
                range_model == range.deep_view(),
                payload_model == read_model.payloads[range_index as int],
                payload_model == payload.deep_view(),
                before == after_ranges(start, load_model, read_model, range_index as nat),
                after_writes(before, payload_model.len(), index as nat) == Ok::<
                    LoadProgressModel,
                    Seq<char>,
                >(progress.deep_view()),
                tensor_was_written(
                    writes,
                    load_model,
                    read_model,
                    range_index as nat,
                    from,
                    begun,
                ),
                range_was_written(
                    writes,
                    range_model,
                    payload_model,
                    index as nat,
                    begun,
                    current,
                ),
        {
            let allocation_index: usize = range.allocation_indices[index];
            assert(range_model.allocation_indices[index as int] == allocation_index);
            assert(load_model.ranges[range_index as int].allocation_indices[index as int]
                < plan.allocations.len());
            let allocation = &plan.allocations[allocation_index];
            assert(all[allocation_index as int] == allocation.deep_view());
            let ghost at = current;
            assert(written_up_to(
                writes,
                first,
                load_model,
                read_model,
                range_index as int,
                index as int,
                from,
                at,
            ));
            let (next, written) = write(current, allocation, payload);
            current = next;
            proof {
                assert(call_ensures(*write, (at, allocation, payload), (current, written)));
                assert(write_gave(
                    *write,
                    at,
                    allocation.deep_view(),
                    payload_model,
                    current,
                    write_told(written),
                ));
                assert(writes(at, allocation_index, payload_model, current, write_told(written)));
            }
            match written {
                Err(error) => {
                    assert(last_write_failed(
                        writes,
                        first,
                        load_model,
                        read_model,
                        range_index as int,
                        index as int,
                        error.0@,
                        at,
                        current,
                    ));
                    return (Err(error), current);
                },
                Ok(_) => {},
            }
            match progress.note_write(payload.len()) {
                Err(error) => {
                    assert(last_write_failed(
                        writes,
                        first,
                        load_model,
                        read_model,
                        range_index as int,
                        index as int,
                        error.0@,
                        at,
                        current,
                    ));
                    return (Err(error), current);
                },
                Ok(_) => {},
            }
            assert(range_was_written(
                writes,
                range_model,
                payload_model,
                (index + 1) as nat,
                begun,
                current,
            ));
        }
        proof {
            lemma_tensor_step(
                writes,
                load_model,
                read_model,
                range_index as nat,
                from,
                begun,
                current,
            );
        }
        range_index += 1;
    }
    (Ok(()), current)
}

impl VulkanDistributedParameterAllocationPlan {
    /// Loads the plan: reads every tensor of the schedule once, and writes each of its
    /// ranges to the allocations that hold it.
    pub fn load_from_tensor_index<
        D,
        R: Fn(D, &String, &Vec<TensorStorageRange>) -> (
            D,
            Result<VulkanDistributedTensorRead, String>,
        ),
        W: Fn(D, &VulkanDistributedParameterAllocation, &Vec<u8>) -> (
            D,
            Result<(), VulkanDistributedParameterLoadError>,
        ),
    >(&self, devices: D, read: &R, write: &W) -> (result: (
        Result<VulkanDistributedParameterLoadReport, VulkanDistributedParameterLoadError>,
        D,
    ))
        requires
            can_be_loaded(
                *read,
                allocation_writes(*write, self.deep_view().allocations),
                allocation_permission(*write, self.deep_view().allocations),
                load_schedule(self.deep_view().allocations),
                devices,
            ),
        ensures
            match result.0 {
                Ok(report) => can_succeed(
                    *read,
                    allocation_writes(*write, self.deep_view().allocations),
                    self.deep_view(),
                    report,
                    devices,
                    result.1,
                ),
                Err(error) => can_fail(
                    *read,
                    allocation_writes(*write, self.deep_view().allocations),
                    load_schedule(self.deep_view().allocations),
                    error.0@,
                    devices,
                    result.1,
                ),
            },
    {
        let loads = self.load_schedule();
        let ghost plan = self.deep_view();
        let ghost schedule = loads.deep_view();
        let ghost writes = allocation_writes(*write, plan.allocations);
        let ghost permitted = allocation_permission(*write, plan.allocations);
        let ghost from = devices;
        let mut current = devices;
        proof {
            assert(self.allocations.len() == plan.allocations.len());
            law_schedules_serve_every_allocation(plan);
        }
        let mut progress = LoadProgress::new();
        let ghost mut reads: Seq<VulkanDistributedTensorRead> = Seq::empty();
        assert(read_models(reads) =~= Seq::empty());
        for index in 0..loads.len()
            invariant
                plan == self.deep_view(),
                from == devices,
                writes == allocation_writes(*write, plan.allocations),
                permitted == allocation_permission(*write, plan.allocations),
                can_be_loaded(*read, writes, permitted, schedule, from),
                schedule == loads.deep_view(),
                schedule == load_schedule(plan.allocations),
                schedule_is_sound(plan, schedule),
                reads.len() == index,
                loaded_so_far(*read, writes, schedule, reads, from, current),
                loaded(schedule, read_models(reads)) == Ok::<LoadProgressModel, Seq<char>>(
                    progress.deep_view(),
                ),
        {
            let load = &loads[index];
            assert(schedule[index as int] == load.deep_view());
            let ranges = load.storage_ranges();
            let ghost at = current;
            let (next, given) = read(current, &load.tensor, &ranges);
            current = next;
            let ghost after = current;
            proof {
                assert(call_ensures(*read, (at, &load.tensor, &ranges), (after, given)));
                assert(read_gave(*read, at, schedule[index as int], after, told(given)));
            }
            match given {
                Err(text) => {
                    assert(load_failed(*read, writes, schedule, reads, text@, from, current));
                    return (Err(VulkanDistributedParameterLoadError(text)), current);
                },
                Ok(tensor_read) => {
                    let ghost following = reads.push(tensor_read);
                    proof {
                        assert(read_models(following).drop_last() =~= read_models(reads));
                        assert(following.drop_last() =~= reads);
                        assert(tensor_was_read(
                            *read,
                            writes,
                            schedule,
                            following,
                            from,
                            at,
                            after,
                        ));
                        assert forall|range: int, place: int, reached: D| #[trigger]
                            written_up_to(
                                writes,
                                progress.deep_view(),
                                load.deep_view(),
                                tensor_read.deep_view(),
                                range,
                                place,
                                after,
                                reached,
                            ) implies write_can_be_made(
                            *write,
                            reached,
                            plan.allocations[load.deep_view().ranges[range].allocation_indices[place] as int],
                            tensor_read.deep_view().payloads[range],
                        ) by {
                            assert(write_is_due(
                                *read,
                                writes,
                                schedule,
                                following,
                                range,
                                place,
                                from,
                                reached,
                            ));
                        }
                        assert forall|j: int, k: int|
                            #![trigger load.deep_view().ranges[j].allocation_indices[k]]
                            0 <= j < load.deep_view().ranges.len() && 0 <= k
                                < load.deep_view().ranges[j].allocation_indices.len() implies
                            load.deep_view().ranges[j].allocation_indices[k]
                                < self.allocations.len() by {
                            assert(schedule[index as int].ranges[j].allocation_indices[k]
                                < plan.allocations.len());
                        }
                    }
                    let (written, left) = write_tensor(
                        self,
                        load,
                        &tensor_read,
                        current,
                        write,
                        &mut progress,
                    );
                    current = left;
                    match written {
                        Err(error) => {
                            assert(load_failed(
                                *read,
                                writes,
                                schedule,
                                following,
                                error.0@,
                                from,
                                current,
                            ));
                            return (Err(error), current);
                        },
                        Ok(_) => {},
                    }
                    proof {
                        assert(tensors_were_loaded(
                            *read,
                            writes,
                            schedule,
                            following,
                            from,
                            current,
                        ));
                        reads = following;
                    }
                },
            }
        }
        let report = progress.report(self);
        assert(load_succeeded(*read, writes, schedule, reads, from, current));
        (Ok(report), current)
    }
}

} // verus!
