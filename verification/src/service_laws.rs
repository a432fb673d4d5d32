//! Laws of what devices are asked for: the semaphores of a synchronization and the bytes of
//! parameters.
use vstd::prelude::*;

use crate::errors::{VulkanDistributedParameterLoadError, VulkanError};
use crate::parameter_buffers::{
    is_served, law_schedules_serve_every_allocation, load_schedule, ranges_of, serves,
    written_ranges, TensorStorageRange, VulkanDistributedParameterLoadReport,
    VulkanDistributedRangeLoadModel, VulkanDistributedTensorLoadModel,
    VulkanDistributedTensorRead, VulkanDistributedTensorReadModel,
};
use crate::parameter_loading::{
    allocation_writes, can_succeed, load_succeeded, range_was_written, read_gave,
    tensor_was_written, tensors_were_loaded, write_gave, write_told, WriteRelation,
};
use crate::parameter_plans::{
    VulkanDistributedParameterAllocation, VulkanDistributedParameterAllocationModel,
    VulkanDistributedParameterAllocationPlanModel,
};
use crate::queue_dependencies::{
    done_link, ends_were_made, import_gave, link_failed, link_was_made, ready_link,
    synchronization_can_give, VulkanDistributedQueueSynchronization, VulkanTimelineLink,
    VulkanTimelineSemaphore,
};

verus! {

/// What a device gives for a semaphore is known of the device and the value that the
/// semaphore starts with.
pub open spec fn gives_semaphores<
    D,
    N: Fn(D, &String, u64) -> (D, Result<VulkanTimelineSemaphore, String>),
>(create: N, known: spec_fn(Seq<char>, u64, VulkanTimelineSemaphore) -> bool) -> bool {
    forall|from: D, device: &String, value: u64, to: D, made: VulkanTimelineSemaphore| #[trigger]
        call_ensures(create, (from, device, value), (to, Ok::<_, String>(made))) ==> known(
            device@,
            value,
            made,
        )
}

/// No device refuses a semaphore.
pub open spec fn always_gives_semaphores<
    D,
    N: Fn(D, &String, u64) -> (D, Result<VulkanTimelineSemaphore, String>),
>(create: N) -> bool {
    forall|from: D, device: &String, value: u64, to: D, reason: String|
        !#[trigger] call_ensures(
            create,
            (from, device, value),
            (to, Err::<VulkanTimelineSemaphore, String>(reason)),
        )
}

/// What is joined is known of both devices and both semaphores.
pub open spec fn joins_semaphores<
    D,
    I: Fn(D, &String, &VulkanTimelineSemaphore, &String, &VulkanTimelineSemaphore) -> (
        D,
        Result<(), String>,
    ),
>(
    import: I,
    joined: spec_fn(
        Seq<char>,
        VulkanTimelineSemaphore,
        Seq<char>,
        VulkanTimelineSemaphore,
    ) -> bool,
) -> bool {
    forall|
        from: D,
        waiting: &String,
        own: &VulkanTimelineSemaphore,
        signalling: &String,
        other: &VulkanTimelineSemaphore,
        to: D,
    | #[trigger]
        call_ensures(
            import,
            (from, waiting, own, signalling, other),
            (to, Ok::<(), String>(())),
        ) ==> joined(waiting@, *own, signalling@, *other)
}

/// No device refuses to join semaphores.
pub open spec fn always_joins_semaphores<
    D,
    I: Fn(D, &String, &VulkanTimelineSemaphore, &String, &VulkanTimelineSemaphore) -> (
        D,
        Result<(), String>,
    ),
>(import: I) -> bool {
    forall|
        from: D,
        waiting: &String,
        own: &VulkanTimelineSemaphore,
        signalling: &String,
        other: &VulkanTimelineSemaphore,
        to: D,
        reason: String,
    |
        !#[trigger] call_ensures(
            import,
            (from, waiting, own, signalling, other),
            (to, Err::<(), String>(reason)),
        )
}

proof fn lemma_link<
    D,
    X: Fn(D, &String, u64) -> (D, Result<VulkanTimelineSemaphore, String>),
    N: Fn(D, &String, u64) -> (D, Result<VulkanTimelineSemaphore, String>),
    I: Fn(D, &String, &VulkanTimelineSemaphore, &String, &VulkanTimelineSemaphore) -> (
        D,
        Result<(), String>,
    ),
>(
    create_exportable: X,
    create: N,
    import: I,
    exported: spec_fn(Seq<char>, u64, VulkanTimelineSemaphore) -> bool,
    own: spec_fn(Seq<char>, u64, VulkanTimelineSemaphore) -> bool,
    joined: spec_fn(
        Seq<char>,
        VulkanTimelineSemaphore,
        Seq<char>,
        VulkanTimelineSemaphore,
    ) -> bool,
    source_device_id: Seq<char>,
    waiting_device_id: Seq<char>,
    link: VulkanTimelineLink,
    from: D,
    to: D,
)
    requires
        gives_semaphores::<D, X>(create_exportable, exported),
        gives_semaphores::<D, N>(create, own),
        joins_semaphores::<D, I>(import, joined),
        link_was_made(
            create_exportable,
            create,
            import,
            source_device_id,
            waiting_device_id,
            link,
            from,
            to,
        ),
    ensures
        exported(source_device_id, 0, link.source),
        own(waiting_device_id, 0, link.wait),
        joined(waiting_device_id, link.wait, source_device_id, link.source),
{
    let at = choose|at: D| #[trigger]
        ends_were_made(
            create_exportable,
            create,
            source_device_id,
            waiting_device_id,
            link,
            from,
            at,
        ) && import_gave(
            import,
            at,
            waiting_device_id,
            link.wait,
            source_device_id,
            link.source,
            to,
            Ok::<(), String>(()),
        );
    assert(ends_were_made(
        create_exportable,
        create,
        source_device_id,
        waiting_device_id,
        link,
        from,
        at,
    ));
}

proof fn lemma_link_fails_by_refusal<
    D,
    X: Fn(D, &String, u64) -> (D, Result<VulkanTimelineSemaphore, String>),
    N: Fn(D, &String, u64) -> (D, Result<VulkanTimelineSemaphore, String>),
    I: Fn(D, &String, &VulkanTimelineSemaphore, &String, &VulkanTimelineSemaphore) -> (
        D,
        Result<(), String>,
    ),
>(
    create_exportable: X,
    create: N,
    import: I,
    source_device_id: Seq<char>,
    waiting_device_id: Seq<char>,
    reason: String,
    from: D,
    to: D,
)
    requires
        always_gives_semaphores::<D, X>(create_exportable),
        always_gives_semaphores::<D, N>(create),
        always_joins_semaphores::<D, I>(import),
    ensures
        !link_failed(
            create_exportable,
            create,
            import,
            source_device_id,
            waiting_device_id,
            reason,
            from,
            to,
        ),
{
}

/// An owner and a helper that are connected have two links, one each way. The source of a
/// link is an exportable semaphore of the device that signals, its other end a semaphore of
/// the device that waits, both start at zero, and they are joined. The owner is the source
/// of readiness, and the helper that of completion.
pub proof fn law_synchronizations_link_both_ways<
    D,
    X: Fn(D, &String, u64) -> (D, Result<VulkanTimelineSemaphore, String>),
    N: Fn(D, &String, u64) -> (D, Result<VulkanTimelineSemaphore, String>),
    I: Fn(D, &String, &VulkanTimelineSemaphore, &String, &VulkanTimelineSemaphore) -> (
        D,
        Result<(), String>,
    ),
>(
    create_exportable: X,
    create: N,
    import: I,
    exported: spec_fn(Seq<char>, u64, VulkanTimelineSemaphore) -> bool,
    own: spec_fn(Seq<char>, u64, VulkanTimelineSemaphore) -> bool,
    joined: spec_fn(
        Seq<char>,
        VulkanTimelineSemaphore,
        Seq<char>,
        VulkanTimelineSemaphore,
    ) -> bool,
    owner_supported: bool,
    helper_supported: bool,
    owner_device_id: Seq<char>,
    helper_device_id: Seq<char>,
    label: Seq<char>,
    outcome: Result<VulkanDistributedQueueSynchronization, VulkanError>,
    from: D,
    to: D,
)
    requires
        gives_semaphores::<D, X>(create_exportable, exported),
        gives_semaphores::<D, N>(create, own),
        joins_semaphores::<D, I>(import, joined),
        synchronization_can_give(
            create_exportable,
            create,
            import,
            owner_supported,
            helper_supported,
            owner_device_id,
            helper_device_id,
            label,
            outcome,
            from,
            to,
        ),
    ensures
        outcome is Ok ==> owner_supported && helper_supported,
        !(owner_supported && helper_supported) ==> from == to,
        outcome is Ok ==> {
            let connected = outcome->Ok_0;
            &&& connected.device_id@ == helper_device_id
            &&& exported(owner_device_id, 0, connected.ready_source)
            &&& own(helper_device_id, 0, connected.ready_wait)
            &&& joined(
                helper_device_id,
                connected.ready_wait,
                owner_device_id,
                connected.ready_source,
            )
            &&& exported(helper_device_id, 0, connected.done_source)
            &&& own(owner_device_id, 0, connected.done_wait)
            &&& joined(
                owner_device_id,
                connected.done_wait,
                helper_device_id,
                connected.done_source,
            )
        },
{
    if outcome is Ok {
        let connected = outcome->Ok_0;
        let at = choose|at: D| #[trigger]
            link_was_made(
                create_exportable,
                create,
                import,
                owner_device_id,
                helper_device_id,
                ready_link(connected),
                from,
                at,
            ) && link_was_made(
                create_exportable,
                create,
                import,
                helper_device_id,
                owner_device_id,
                done_link(connected),
                at,
                to,
            );
        lemma_link(
            create_exportable,
            create,
            import,
            exported,
            own,
            joined,
            owner_device_id,
            helper_device_id,
            ready_link(connected),
            from,
            at,
        );
        lemma_link(
            create_exportable,
            create,
            import,
            exported,
            own,
            joined,
            helper_device_id,
            owner_device_id,
            done_link(connected),
            at,
            to,
        );
    }
}

/// Where both devices support it and no device refuses what it is asked for, an owner and a
/// helper are connected.
pub proof fn law_synchronizations_fail_by_refusal<
    D,
    X: Fn(D, &String, u64) -> (D, Result<VulkanTimelineSemaphore, String>),
    N: Fn(D, &String, u64) -> (D, Result<VulkanTimelineSemaphore, String>),
    I: Fn(D, &String, &VulkanTimelineSemaphore, &String, &VulkanTimelineSemaphore) -> (
        D,
        Result<(), String>,
    ),
>(
    create_exportable: X,
    create: N,
    import: I,
    owner_device_id: Seq<char>,
    helper_device_id: Seq<char>,
    label: Seq<char>,
    outcome: Result<VulkanDistributedQueueSynchronization, VulkanError>,
    from: D,
    to: D,
)
    requires
        always_gives_semaphores::<D, X>(create_exportable),
        always_gives_semaphores::<D, N>(create),
        always_joins_semaphores::<D, I>(import),
        synchronization_can_give(
            create_exportable,
            create,
            import,
            true,
            true,
            owner_device_id,
            helper_device_id,
            label,
            outcome,
            from,
            to,
        ),
    ensures
        outcome is Ok,
{
    if outcome is Err {
        let reason = outcome->Err_0.0;
        lemma_link_fails_by_refusal(
            create_exportable,
            create,
            import,
            owner_device_id,
            helper_device_id,
            reason,
            from,
            to,
        );
        assert forall|at: D| !#[trigger]
            link_failed(
                create_exportable,
                create,
                import,
                helper_device_id,
                owner_device_id,
                reason,
                at,
                to,
            ) by {
            lemma_link_fails_by_refusal(
                create_exportable,
                create,
                import,
                helper_device_id,
                owner_device_id,
                reason,
                at,
                to,
            );
        }
    }
}

/// A read gives the bytes of each range that it is asked for.
pub open spec fn reads_contents<
    D,
    R: Fn(D, &String, &Vec<TensorStorageRange>) -> (D, Result<VulkanDistributedTensorRead, String>),
>(read: R, contents: spec_fn(Seq<char>, TensorStorageRange) -> Seq<u8>) -> bool {
    forall|
        from: D,
        tensor: &String,
        ranges: &Vec<TensorStorageRange>,
        to: D,
        found: VulkanDistributedTensorRead,
    | #[trigger]
        call_ensures(read, (from, tensor, ranges), (to, Ok::<_, String>(found))) ==> has_contents(
            found.deep_view(),
            contents,
            tensor@,
            ranges@,
        )
}

/// What was read is the bytes of each range.
pub open spec fn has_contents(
    found: VulkanDistributedTensorReadModel,
    contents: spec_fn(Seq<char>, TensorStorageRange) -> Seq<u8>,
    tensor: Seq<char>,
    ranges: Seq<TensorStorageRange>,
) -> bool {
    &&& found.payloads.len() == ranges.len()
    &&& forall|r: int|
        0 <= r < ranges.len() ==> #[trigger] found.payloads[r] == contents(tensor, ranges[r])
}

/// What is written is known of the allocation and its bytes.
pub open spec fn writes_bytes<
    D,
    W: Fn(D, &VulkanDistributedParameterAllocation, &Vec<u8>) -> (
        D,
        Result<(), VulkanDistributedParameterLoadError>,
    ),
>(
    write: W,
    written: spec_fn(VulkanDistributedParameterAllocationModel, Seq<u8>) -> bool,
) -> bool {
    forall|
        from: D,
        target: &VulkanDistributedParameterAllocation,
        bytes: &Vec<u8>,
        to: D,
        given: Result<(), VulkanDistributedParameterLoadError>,
    | #[trigger]
        call_ensures(write, (from, target, bytes), (to, given)) && given is Ok ==> written(
            target.deep_view(),
            bytes.deep_view(),
        )
}

/// Successful writes through a relation are known of the index and the bytes.
spec fn relates_writes<D>(
    writes: WriteRelation<D>,
    written: spec_fn(usize, Seq<u8>) -> bool,
) -> bool {
    forall|from: D, index: usize, payload: Seq<u8>, to: D| #[trigger]
        writes(from, index, payload, to, Ok::<(), Seq<char>>(())) ==> written(index, payload)
}

proof fn lemma_range_written<D>(
    writes: WriteRelation<D>,
    written: spec_fn(usize, Seq<u8>) -> bool,
    range: VulkanDistributedRangeLoadModel,
    payload: Seq<u8>,
    count: nat,
    from: D,
    to: D,
    place: int,
)
    requires
        relates_writes(writes, written),
        range_was_written(writes, range, payload, count, from, to),
        0 <= place < count,
    ensures
        written(range.allocation_indices[place], payload),
    decreases count,
{
    let at = choose|at: D| #[trigger]
        writes(at, range.allocation_indices[count - 1], payload, to, Ok::<(), Seq<char>>(()))
            && range_was_written(writes, range, payload, (count - 1) as nat, from, at);
    if place < count - 1 {
        lemma_range_written(writes, written, range, payload, (count - 1) as nat, from, at, place);
    }
}

proof fn lemma_tensor_written<D>(
    writes: WriteRelation<D>,
    written: spec_fn(usize, Seq<u8>) -> bool,
    load: VulkanDistributedTensorLoadModel,
    read: VulkanDistributedTensorReadModel,
    count: nat,
    from: D,
    to: D,
    range: int,
    place: int,
)
    requires
        relates_writes(writes, written),
        tensor_was_written(writes, load, read, count, from, to),
        0 <= range < count,
        0 <= place < load.ranges[range].allocation_indices.len(),
    ensures
        written(load.ranges[range].allocation_indices[place], read.payloads[range]),
    decreases count,
{
    let last = load.ranges[count - 1];
    let at = choose|at: D| #[trigger]
        range_was_written(
            writes,
            load.ranges[count - 1],
            read.payloads[count - 1],
            load.ranges[count - 1].allocation_indices.len(),
            at,
            to,
        ) && tensor_was_written(writes, load, read, (count - 1) as nat, from, at);
    if range < count - 1 {
        lemma_tensor_written(
            writes,
            written,
            load,
            read,
            (count - 1) as nat,
            from,
            at,
            range,
            place,
        );
    } else {
        lemma_range_written(
            writes,
            written,
            last,
            read.payloads[count - 1],
            last.allocation_indices.len(),
            at,
            to,
            place,
        );
    }
}

proof fn lemma_tensors_written<
    D,
    R: Fn(D, &String, &Vec<TensorStorageRange>) -> (D, Result<VulkanDistributedTensorRead, String>),
>(
    read: R,
    writes: WriteRelation<D>,
    contents: spec_fn(Seq<char>, TensorStorageRange) -> Seq<u8>,
    written: spec_fn(usize, Seq<u8>) -> bool,
    loads: Seq<VulkanDistributedTensorLoadModel>,
    reads: Seq<VulkanDistributedTensorRead>,
    from: D,
    to: D,
    load: int,
    range: int,
    place: int,
)
    requires
        reads_contents::<D, R>(read, contents),
        relates_writes(writes, written),
        tensors_were_loaded(read, writes, loads, reads, from, to),
        0 <= load < reads.len() <= loads.len(),
        0 <= range < loads[load].ranges.len(),
        0 <= place < loads[load].ranges[range].allocation_indices.len(),
    ensures
        written(
            loads[load].ranges[range].allocation_indices[place],
            contents(loads[load].tensor, loads[load].ranges[range].range),
        ),
    decreases reads.len(),
{
    let last = loads[reads.len() - 1];
    let (at, after) = choose|at: D, after: D| #[trigger]
        read_gave(
            read,
            at,
            last,
            after,
            Ok::<VulkanDistributedTensorRead, Seq<char>>(reads.last()),
        ) && tensors_were_loaded(read, writes, loads, reads.drop_last(), from, at)
            && tensor_was_written(
            writes,
            last,
            reads.last().deep_view(),
            written_ranges(last, reads.last().deep_view()),
            after,
            to,
        );
    if load < reads.len() - 1 {
        lemma_tensors_written(
            read,
            writes,
            contents,
            written,
            loads,
            reads.drop_last(),
            from,
            at,
            load,
            range,
            place,
        );
    } else {
        let found = reads.last().deep_view();
        assert(has_contents(found, contents, last.tensor, ranges_of(last)));
        assert(found.payloads[range] == contents(last.tensor, ranges_of(last)[range]));
        lemma_tensor_written(
            writes,
            written,
            last,
            found,
            written_ranges(last, found),
            after,
            to,
            range,
            place,
        );
    }
}

/// Where loading succeeds, every allocation of the plan was given the bytes of its own range
/// of its own tensor.
pub proof fn law_loading_writes_every_allocation<
    D,
    R: Fn(D, &String, &Vec<TensorStorageRange>) -> (D, Result<VulkanDistributedTensorRead, String>),
    W: Fn(D, &VulkanDistributedParameterAllocation, &Vec<u8>) -> (
        D,
        Result<(), VulkanDistributedParameterLoadError>,
    ),
>(
    read: R,
    write: W,
    contents: spec_fn(Seq<char>, TensorStorageRange) -> Seq<u8>,
    written: spec_fn(VulkanDistributedParameterAllocationModel, Seq<u8>) -> bool,
    plan: VulkanDistributedParameterAllocationPlanModel,
    report: VulkanDistributedParameterLoadReport,
    from: D,
    to: D,
    index: usize,
)
    requires
        plan.allocations.len() <= usize::MAX,
        index < plan.allocations.len(),
        reads_contents::<D, R>(read, contents),
        writes_bytes::<D, W>(write, written),
        can_succeed(read, allocation_writes(write, plan.allocations), plan, report, from, to),
    ensures
        ({
            let allocation = plan.allocations[index as int];
            written(
                allocation,
                contents(
                    allocation.tensor,
                    TensorStorageRange {
                        byte_offset: allocation.byte_offset,
                        byte_count: allocation.byte_count,
                    },
                ),
            )
        }),
{
    let allocations = plan.allocations;
    let loads = load_schedule(allocations);
    let writes = allocation_writes(write, allocations);
    let reads = choose|reads: Seq<VulkanDistributedTensorRead>| #[trigger]
        load_succeeded(read, writes, loads, reads, from, to) && report
            == crate::parameter_buffers::load_report(
            plan,
            crate::parameter_buffers::loaded(
                loads,
                crate::parameter_buffers::read_models(reads),
            )->Ok_0,
        );
    law_schedules_serve_every_allocation(plan);
    assert(is_served(loads, allocations[index as int], index as int as usize));
    let (load, range) = choose|load: int, range: int|
        0 <= load < loads.len() && #[trigger] serves(
            loads[load],
            range,
            allocations[index as int],
            index,
        );
    let indices = loads[load].ranges[range].allocation_indices;
    let place = choose|place: int| 0 <= place < indices.len() && indices[place] == index;
    let known = |at: usize, bytes: Seq<u8>| written(allocations[at as int], bytes);
    assert forall|before: D, at: usize, payload: Seq<u8>, after: D| #[trigger]
        writes(before, at, payload, after, Ok::<(), Seq<char>>(())) implies known(at, payload) by {
        assert(write_gave(
            write,
            before,
            allocations[at as int],
            payload,
            after,
            Ok::<(), Seq<char>>(()),
        ));
        let (target, bytes, given) = choose|
            target: &VulkanDistributedParameterAllocation,
            bytes: &Vec<u8>,
            given: Result<(), VulkanDistributedParameterLoadError>,
        |
            target.deep_view() == allocations[at as int] && bytes.deep_view() == payload
                && #[trigger] call_ensures(write, (before, target, bytes), (after, given))
                && Ok::<(), Seq<char>>(()) == write_told(given);
        assert(given is Ok);
    }
    lemma_tensors_written(
        read,
        writes,
        contents,
        known,
        loads,
        reads,
        from,
        to,
        load,
        range,
        place,
    );
}

} // verus!
