//! Making the parameters of a plan resident out of a shared pool.
use vstd::prelude::*;

use crate::errors::VulkanDistributedParameterBufferError;
use crate::ordered::{
    lemma_listed_at, lemma_ordered_listing_exists, ordered_listing, OrderedMap,
};
use crate::parameter_buffers::{
    TensorStorageRange, VulkanDistributedParameterBufferAllocation,
    VulkanDistributedParameterBufferAllocationModel, VulkanDistributedParameterBuffers,
    VulkanDistributedTensorRead, VulkanResidentBufferPoolAllocation,
    VulkanResidentBufferPoolAllocationModel, VulkanResidentBufferPoolKey,
    VulkanResidentBufferPoolKeyModel,
};
use crate::parameter_loading::told;
use crate::parameter_mounting::{
    allocation_places, arena_models, buffers_can_be_filled, complete, has_place, lemma_no_repeats,
    lemma_places, fill_buffers, fill_group, filled_by,
    filling_can_fail, groups_filled, key_of, lemma_slots_len, missing_from, placing_fault_from,
    repeats, repetition_error, repetition_text, resident, served_count, take_complete, targets_of,
};
use crate::parameter_plans::{
    allocation_bytes, total_allocation_bytes, count_tensors, AllocationKey,
    VulkanDistributedParameterAllocation, VulkanDistributedParameterAllocationModel,
    VulkanDistributedParameterAllocationPlan,
};
use crate::prepared::{
    TensorContentIdentity, TensorContentIdentityModel, TensorIndex, TensorIndexModel,
};
use crate::resident::{VulkanArenaAllocation, VulkanResidentBuffer};
use crate::sequences::{append, lemma_sum_step, sum_of};
use crate::text::{debug_text, decimal, decimal_text, join2, quoted};
use crate::values::PlainValue;

verus! {

/// The identity under which a pool keeps an allocation, or the text of the error.
pub open spec fn pool_key(
    tensors: TensorIndexModel,
    allocation: VulkanDistributedParameterAllocationModel,
) -> Result<VulkanResidentBufferPoolKeyModel, Seq<char>> {
    if !tensors.tensors.contains_key(allocation.tensor) {
        Err("tensor index has no distributed parameter "@ + debug_text(allocation.tensor))
    } else {
        match tensors.tensors[allocation.tensor].content_identity {
            TensorContentIdentityModel::Unavailable { reason } => Err(reason),
            TensorContentIdentityModel::Known { identity } => Ok(
                VulkanResidentBufferPoolKeyModel {
                    namespace: "nerve.tensor_parameter.v1"@,
                    device_id: allocation.device_id,
                    tensor: allocation.tensor,
                    content_identity: identity,
                    byte_offset: allocation.byte_offset,
                    byte_count: allocation.byte_count,
                },
            ),
        }
    }
}

fn make_pool_key(tensor_index: &TensorIndex, allocation: &VulkanDistributedParameterAllocation) -> (
outcome: Result<VulkanResidentBufferPoolKey, VulkanDistributedParameterBufferError>)
    ensures
        match outcome {
            Ok(key) => pool_key(tensor_index.deep_view(), allocation.deep_view()) == Ok::<
                VulkanResidentBufferPoolKeyModel,
                Seq<char>,
            >(key.deep_view()),
            Err(error) => pool_key(tensor_index.deep_view(), allocation.deep_view()) == Err::<
                VulkanResidentBufferPoolKeyModel,
                Seq<char>,
            >(error.0@),
        },
{
    let metadata = match tensor_index.tensors.get(&allocation.tensor) {
        None => {
            return Err(
                VulkanDistributedParameterBufferError(
                    join2(
                        "tensor index has no distributed parameter ",
                        quoted(allocation.tensor.as_str()).as_str(),
                    ),
                ),
            );
        },
        Some(metadata) => metadata,
    };
    match &metadata.content_identity {
        TensorContentIdentity::Unavailable { reason } => Err(
            VulkanDistributedParameterBufferError(reason.clone()),
        ),
        TensorContentIdentity::Known { identity } => Ok(
            VulkanResidentBufferPoolKey {
                namespace: "nerve.tensor_parameter.v1".to_owned(),
                device_id: allocation.device_id.clone(),
                tensor: allocation.tensor.clone(),
                content_identity: identity.clone(),
                byte_offset: allocation.byte_offset,
                byte_count: allocation.byte_count,
            },
        ),
    }
}

/// Looking up an allocation in the pool gave an outcome and left the devices so.
pub open spec fn lookup_gave<
    D,
    L: Fn(D, &VulkanResidentBufferPoolKey) -> (D, Result<Option<VulkanArenaAllocation>, String>),
>(
    lookup: L,
    from: D,
    tensors: TensorIndexModel,
    allocation: VulkanDistributedParameterAllocationModel,
    to: D,
    outcome: Result<Option<VulkanArenaAllocation>, Seq<char>>,
) -> bool {
    exists|key: &VulkanResidentBufferPoolKey, given: Result<Option<VulkanArenaAllocation>, String>|
        pool_key(tensors, allocation) == Ok::<VulkanResidentBufferPoolKeyModel, Seq<char>>(
            key.deep_view(),
        ) && #[trigger] call_ensures(lookup, (from, key), (to, given)) && outcome == told(given)
}

/// The first allocations were looked up, one after the other.
pub open spec fn lookups_gave<
    D,
    L: Fn(D, &VulkanResidentBufferPoolKey) -> (D, Result<Option<VulkanArenaAllocation>, String>),
>(
    lookup: L,
    tensors: TensorIndexModel,
    allocations: Seq<VulkanDistributedParameterAllocationModel>,
    found: Seq<Option<VulkanArenaAllocation>>,
    from: D,
    to: D,
) -> bool
    decreases found.len(),
{
    if found.len() == 0 {
        from == to
    } else {
        found.len() <= allocations.len() && exists|at: D| #[trigger]
            lookup_gave(
                lookup,
                at,
                tensors,
                allocations[found.len() - 1],
                to,
                Ok::<Option<VulkanArenaAllocation>, Seq<char>>(found.last()),
            ) && lookups_gave(lookup, tensors, allocations, found.drop_last(), from, at)
    }
}

/// The buffers of the allocations that the pool keeps already.
pub open spec fn found_slots(
    allocations: Seq<VulkanDistributedParameterAllocationModel>,
    found: Seq<Option<VulkanArenaAllocation>>,
) -> Seq<Option<VulkanDistributedParameterBufferAllocationModel>> {
    Seq::new(
        allocations.len(),
        |i: int|
            if i < found.len() && found[i] is Some {
                Some(resident(allocations[i], found[i]->0))
            } else {
                None
            },
    )
}

/// The allocations of every device that the pool does not keep yet, in their order.
pub open spec fn missing_groups(
    allocations: Seq<VulkanDistributedParameterAllocationModel>,
    found: Seq<Option<VulkanArenaAllocation>>,
) -> Map<Seq<char>, Seq<usize>>
    decreases found.len(),
{
    if found.len() == 0 {
        Map::empty()
    } else {
        let groups = missing_groups(allocations, found.drop_last());
        if found.last() is Some {
            groups
        } else {
            let device_id = allocations[found.len() - 1].device_id;
            let indices = if groups.contains_key(device_id) {
                groups[device_id]
            } else {
                Seq::empty()
            };
            groups.insert(device_id, indices.push((found.len() - 1) as usize))
        }
    }
}

/// What the pool is asked for: the missing allocations, by device.
pub open spec fn pool_requests(
    allocations: Seq<VulkanDistributedParameterAllocationModel>,
    found: Seq<Option<VulkanArenaAllocation>>,
) -> Seq<(Seq<char>, Seq<usize>)> {
    ordered_listing::<String, Seq<usize>>(missing_groups(allocations, found))
}

proof fn lemma_missing_groups(
    allocations: Seq<VulkanDistributedParameterAllocationModel>,
    found: Seq<Option<VulkanArenaAllocation>>,
)
    requires
        found.len() <= allocations.len(),
        allocations.len() <= usize::MAX,
    ensures
        missing_groups(allocations, found).dom().finite(),
        forall|device_id: Seq<char>, k: int|
            #![trigger missing_groups(allocations, found)[device_id][k]]
            missing_groups(allocations, found).contains_key(device_id) && 0 <= k < missing_groups(
                allocations,
                found,
            )[device_id].len() ==> missing_groups(allocations, found)[device_id][k] < found.len(),
    decreases found.len(),
{
    if found.len() > 0 {
        let rest = found.drop_last();
        lemma_missing_groups(allocations, rest);
        let before = missing_groups(allocations, rest);
        let after = missing_groups(allocations, found);
        assert forall|device_id: Seq<char>, k: int|
            #![trigger after[device_id][k]]
            after.contains_key(device_id) && 0 <= k
                < after[device_id].len() implies after[device_id][k] < found.len() by {
            if before.contains_key(device_id) && k < before[device_id].len() {
                assert(before[device_id][k] == after[device_id][k]);
            }
        }
    }
}

proof fn lemma_pool_requests(
    allocations: Seq<VulkanDistributedParameterAllocationModel>,
    found: Seq<Option<VulkanArenaAllocation>>,
)
    requires
        found.len() <= allocations.len(),
        allocations.len() <= usize::MAX,
    ensures
        forall|g: int, k: int|
            #![trigger pool_requests(allocations, found)[g].1[k]]
            0 <= g < pool_requests(allocations, found).len() && 0 <= k < pool_requests(
                allocations,
                found,
            )[g].1.len() ==> pool_requests(allocations, found)[g].1[k] < allocations.len(),
{
    let requests = pool_requests(allocations, found);
    lemma_missing_groups(allocations, found);
    lemma_ordered_listing_exists::<String, Seq<usize>>(missing_groups(allocations, found));
    assert forall|g: int, k: int|
        #![trigger requests[g].1[k]]
        0 <= g < requests.len() && 0 <= k < requests[g].1.len() implies requests[g].1[k]
        < allocations.len() by {
        lemma_listed_at::<String, Seq<usize>>(requests, g);
        assert(missing_groups(allocations, found)[requests[g].0][k] == requests[g].1[k]);
    }
}

/// The identities of allocations.
pub open spec fn pool_keys_of(
    tensors: TensorIndexModel,
    allocations: Seq<VulkanDistributedParameterAllocationModel>,
    indices: Seq<usize>,
) -> Seq<VulkanResidentBufferPoolKeyModel> {
    Seq::new(indices.len(), |k: int| pool_key(tensors, allocations[indices[k] as int])->Ok_0)
}

/// The pool that was asked for missing allocations gave an outcome and left the devices
/// so.
pub open spec fn batch_gave<
    D,
    A: Fn(D, &Vec<VulkanResidentBufferPoolKey>) -> (D, Result<Vec<VulkanArenaAllocation>, String>),
>(
    allocate: A,
    from: D,
    tensors: TensorIndexModel,
    allocations: Seq<VulkanDistributedParameterAllocationModel>,
    indices: Seq<usize>,
    to: D,
    outcome: Result<Vec<VulkanArenaAllocation>, Seq<char>>,
) -> bool {
    exists|keys: &Vec<VulkanResidentBufferPoolKey>, given: Result<Vec<VulkanArenaAllocation>, String>|
        keys.deep_view() == pool_keys_of(tensors, allocations, indices) && #[trigger] call_ensures(
            allocate,
            (from, keys),
            (to, given),
        ) && outcome == told(given)
}

/// The pool gave parts of buffers for the first groups of missing allocations, one after
/// the other.
pub open spec fn batches_gave<
    D,
    A: Fn(D, &Vec<VulkanResidentBufferPoolKey>) -> (D, Result<Vec<VulkanArenaAllocation>, String>),
>(
    allocate: A,
    tensors: TensorIndexModel,
    allocations: Seq<VulkanDistributedParameterAllocationModel>,
    found: Seq<Option<VulkanArenaAllocation>>,
    given: Seq<Vec<VulkanArenaAllocation>>,
    from: D,
    to: D,
) -> bool
    decreases given.len(),
{
    if given.len() == 0 {
        from == to
    } else {
        given.len() <= pool_requests(allocations, found).len() && exists|at: D| #[trigger]
            batch_gave(
                allocate,
                at,
                tensors,
                allocations,
                pool_requests(allocations, found)[given.len() - 1].1,
                to,
                Ok::<Vec<VulkanArenaAllocation>, Seq<char>>(given.last()),
            ) && batches_gave(allocate, tensors, allocations, found, given.drop_last(), from, at)
    }
}

/// The buffers of allocations that the pool kept or gave.
pub open spec fn pool_slots(
    allocations: Seq<VulkanDistributedParameterAllocationModel>,
    found: Seq<Option<VulkanArenaAllocation>>,
    given: Seq<Vec<VulkanArenaAllocation>>,
) -> Seq<Option<VulkanDistributedParameterBufferAllocationModel>> {
    groups_filled(
        allocations,
        found_slots(allocations, found),
        pool_requests(allocations, found),
        arena_models(given),
        given.len(),
    )
}

/// The allocations that the pool gave anew and that are not published yet.
pub open spec fn unpublished(
    requests: Seq<(Seq<char>, Seq<usize>)>,
    given: Seq<Vec<VulkanArenaAllocation>>,
    count: nat,
) -> Seq<usize>
    decreases count,
{
    if count == 0 {
        Seq::empty()
    } else {
        unpublished(requests, given, (count - 1) as nat) + requests[count - 1].1.take(
            served_count(requests[count - 1].1, given[count - 1].deep_view()) as int,
        )
    }
}

/// The allocations that indices name.
pub open spec fn named_allocations(
    allocations: Seq<VulkanDistributedParameterAllocationModel>,
    indices: Seq<usize>,
) -> Seq<VulkanDistributedParameterAllocationModel> {
    Seq::new(indices.len(), |k: int| allocations[indices[k] as int])
}

/// What is handed to the pool to keep.
pub open spec fn publications(
    tensors: TensorIndexModel,
    allocations: Seq<VulkanDistributedParameterAllocationModel>,
    buffers: Seq<VulkanDistributedParameterBufferAllocationModel>,
    indices: Seq<usize>,
) -> Seq<VulkanResidentBufferPoolAllocationModel> {
    Seq::new(
        indices.len(),
        |k: int|
            VulkanResidentBufferPoolAllocationModel {
                key: pool_key(tensors, allocations[indices[k] as int])->Ok_0,
                buffer: buffers[indices[k] as int].buffer,
                byte_offset: buffers[indices[k] as int].byte_offset,
                byte_count: buffers[indices[k] as int].allocation.byte_count,
            },
    )
}

/// The pool that was handed allocations to keep gave an outcome and left the devices so.
pub open spec fn publication_gave<
    D,
    P: Fn(D, &Vec<VulkanResidentBufferPoolAllocation>) -> (D, Result<(), String>),
>(
    publish: P,
    from: D,
    published: Seq<VulkanResidentBufferPoolAllocationModel>,
    to: D,
    outcome: Result<(), Seq<char>>,
) -> bool {
    exists|batch: &Vec<VulkanResidentBufferPoolAllocation>, given: Result<(), String>|
        batch.deep_view() == published && #[trigger] call_ensures(
            publish,
            (from, batch),
            (to, given),
        ) && outcome == told(given)
}

/// The buffers of the allocations of a plan for what the pool kept and gave, with the
/// allocations that it gave anew, or the text of the error.
pub open spec fn pooled_buffers(
    allocations: Seq<VulkanDistributedParameterAllocationModel>,
    found: Seq<Option<VulkanArenaAllocation>>,
    given: Seq<Vec<VulkanArenaAllocation>>,
) -> Result<(Seq<VulkanDistributedParameterBufferAllocationModel>, Seq<usize>), Seq<char>> {
    match missing_from(pool_slots(allocations, found, given), 0) {
        Some(index) => Err(
            "pooled distributed parameter arena did not allocate plan index "@ + decimal_text(
                index,
            ),
        ),
        None => Ok(
            (
                complete(pool_slots(allocations, found, given)),
                unpublished(pool_requests(allocations, found), given, given.len()),
            ),
        ),
    }
}

/// Every allocation was looked up, and the first devices gave what was missing on them.
pub open spec fn pool_gave<
    D,
    L: Fn(D, &VulkanResidentBufferPoolKey) -> (D, Result<Option<VulkanArenaAllocation>, String>),
    A: Fn(D, &Vec<VulkanResidentBufferPoolKey>) -> (D, Result<Vec<VulkanArenaAllocation>, String>),
>(
    lookup: L,
    allocate: A,
    tensors: TensorIndexModel,
    allocations: Seq<VulkanDistributedParameterAllocationModel>,
    found: Seq<Option<VulkanArenaAllocation>>,
    given: Seq<Vec<VulkanArenaAllocation>>,
    from: D,
    to: D,
) -> bool {
    &&& found.len() == allocations.len()
    &&& placing_fault_from(allocations, 0, 0) is None
    &&& exists|at: D| #[trigger]
        lookups_gave(lookup, tensors, allocations, found, from, at) && batches_gave(
            allocate,
            tensors,
            allocations,
            found,
            given,
            at,
            to,
        )
}

/// The pool kept or gave these buffers; these allocations are new.
pub open spec fn buffers_were_given<
    D,
    L: Fn(D, &VulkanResidentBufferPoolKey) -> (D, Result<Option<VulkanArenaAllocation>, String>),
    A: Fn(D, &Vec<VulkanResidentBufferPoolKey>) -> (D, Result<Vec<VulkanArenaAllocation>, String>),
>(
    lookup: L,
    allocate: A,
    tensors: TensorIndexModel,
    allocations: Seq<VulkanDistributedParameterAllocationModel>,
    found: Seq<Option<VulkanArenaAllocation>>,
    given: Seq<Vec<VulkanArenaAllocation>>,
    buffers: Seq<VulkanDistributedParameterBufferAllocationModel>,
    fresh: Seq<usize>,
    from: D,
    to: D,
) -> bool {
    &&& pool_gave(lookup, allocate, tensors, allocations, found, given, from, to)
    &&& given.len() == pool_requests(allocations, found).len()
    &&& pooled_buffers(allocations, found, given) == Ok::<
        (Seq<VulkanDistributedParameterBufferAllocationModel>, Seq<usize>),
        Seq<char>,
    >((buffers, fresh))
}

/// The buffers of the allocations that are new.
pub open spec fn fresh_targets(
    allocations: Seq<VulkanDistributedParameterAllocationModel>,
    buffers: Seq<VulkanDistributedParameterBufferAllocationModel>,
    fresh: Seq<usize>,
) -> Seq<VulkanDistributedParameterBufferAllocationModel> {
    targets_of(allocation_places(allocations), buffers, named_allocations(allocations, fresh))
}

/// The new allocations were loaded, and then published in one batch. Where there are
/// none, nothing was done.
pub open spec fn fresh_were_published<
    D,
    R: Fn(D, &String, &Vec<TensorStorageRange>) -> (D, Result<VulkanDistributedTensorRead, String>),
    W: Fn(D, &VulkanResidentBuffer, usize, &Vec<u8>) -> (D, Result<(), String>),
    P: Fn(D, &Vec<VulkanResidentBufferPoolAllocation>) -> (D, Result<(), String>),
>(
    read: R,
    write: W,
    publish: P,
    tensors: TensorIndexModel,
    allocations: Seq<VulkanDistributedParameterAllocationModel>,
    buffers: Seq<VulkanDistributedParameterBufferAllocationModel>,
    fresh: Seq<usize>,
    from: D,
    to: D,
) -> bool {
    let named = named_allocations(allocations, fresh);
    let targets = fresh_targets(allocations, buffers, fresh);
    if fresh.len() == 0 {
        from == to
    } else {
        sum_of(named, allocation_bytes()) <= usize::MAX && exists|at: D| #[trigger]
            filled_by(read, write, named, targets, from, at) && publication_gave(
                publish,
                at,
                publications(tensors, allocations, buffers, fresh),
                to,
                Ok::<(), Seq<char>>(()),
            )
    }
}

/// Parameters became resident out of a pool: what the pool kept was found, what was
/// missing was given by device; the missing allocations alone were loaded and then
/// published.
pub open spec fn pooled_by<
    D,
    L: Fn(D, &VulkanResidentBufferPoolKey) -> (D, Result<Option<VulkanArenaAllocation>, String>),
    A: Fn(D, &Vec<VulkanResidentBufferPoolKey>) -> (D, Result<Vec<VulkanArenaAllocation>, String>),
    R: Fn(D, &String, &Vec<TensorStorageRange>) -> (D, Result<VulkanDistributedTensorRead, String>),
    W: Fn(D, &VulkanResidentBuffer, usize, &Vec<u8>) -> (D, Result<(), String>),
    P: Fn(D, &Vec<VulkanResidentBufferPoolAllocation>) -> (D, Result<(), String>),
>(
    lookup: L,
    allocate: A,
    read: R,
    write: W,
    publish: P,
    tensors: TensorIndexModel,
    allocations: Seq<VulkanDistributedParameterAllocationModel>,
    buffers: Seq<VulkanDistributedParameterBufferAllocationModel>,
    from: D,
    to: D,
) -> bool {
    exists|
        found: Seq<Option<VulkanArenaAllocation>>,
        given: Seq<Vec<VulkanArenaAllocation>>,
        fresh: Seq<usize>,
        at: D,
    | #[trigger]
        buffers_were_given(
            lookup,
            allocate,
            tensors,
            allocations,
            found,
            given,
            buffers,
            fresh,
            from,
            at,
        ) && fresh_were_published(
            read,
            write,
            publish,
            tensors,
            allocations,
            buffers,
            fresh,
            at,
            to,
        )
}

/// What went wrong while the allocations were looked up: the bytes of those looked up
/// cannot be counted, one repeats, the next has no identity, or its lookup failed.
pub open spec fn lookup_failed<
    D,
    L: Fn(D, &VulkanResidentBufferPoolKey) -> (D, Result<Option<VulkanArenaAllocation>, String>),
>(
    lookup: L,
    tensors: TensorIndexModel,
    allocations: Seq<VulkanDistributedParameterAllocationModel>,
    found: Seq<Option<VulkanArenaAllocation>>,
    message: Seq<char>,
    from: D,
    to: D,
) -> bool {
    let next = found.len() as int;
    match placing_fault_from(allocations.take(next), 0, 0) {
        Some(fault) => {
            &&& 0 < next <= allocations.len()
            &&& placing_fault_from(allocations.take(next - 1), 0, 0) is None
            &&& message == fault
            &&& lookups_gave(lookup, tensors, allocations, found, from, to)
        },
        None => next < allocations.len() && {
            ||| pool_key(tensors, allocations[next]) == Err::<
                VulkanResidentBufferPoolKeyModel,
                Seq<char>,
            >(message) && lookups_gave(lookup, tensors, allocations, found, from, to)
            ||| exists|at: D| #[trigger]
                lookups_gave(lookup, tensors, allocations, found, from, at) && lookup_gave(
                    lookup,
                    at,
                    tensors,
                    allocations[next],
                    to,
                    Err::<Option<VulkanArenaAllocation>, Seq<char>>(message),
                )
        },
    }
}

/// What went wrong with the allocations that the pool gave anew: their bytes cannot be
/// counted, they could not be loaded, or were loaded and the pool did not take them.
/// Nothing is published before everything is loaded.
pub open spec fn fresh_failed<
    D,
    R: Fn(D, &String, &Vec<TensorStorageRange>) -> (D, Result<VulkanDistributedTensorRead, String>),
    W: Fn(D, &VulkanResidentBuffer, usize, &Vec<u8>) -> (D, Result<(), String>),
    P: Fn(D, &Vec<VulkanResidentBufferPoolAllocation>) -> (D, Result<(), String>),
>(
    read: R,
    write: W,
    publish: P,
    tensors: TensorIndexModel,
    allocations: Seq<VulkanDistributedParameterAllocationModel>,
    buffers: Seq<VulkanDistributedParameterBufferAllocationModel>,
    fresh: Seq<usize>,
    message: Seq<char>,
    from: D,
    to: D,
) -> bool {
    let named = named_allocations(allocations, fresh);
    let targets = fresh_targets(allocations, buffers, fresh);
    fresh.len() > 0 && if sum_of(named, allocation_bytes()) > usize::MAX {
        message == "pooled distributed parameter load byte count overflowed"@ && from == to
    } else {
        ||| filling_can_fail(read, write, named, targets, message, from, to)
        ||| exists|at: D| #[trigger]
            filled_by(read, write, named, targets, from, at) && publication_gave(
                publish,
                at,
                publications(tensors, allocations, buffers, fresh),
                to,
                Err::<(), Seq<char>>(message),
            )
    }
}

/// What went wrong after all allocations were looked up: the pool did not give the next
/// batch, an allocation got nothing, or the new ones could not be loaded or published.
pub open spec fn pooling_failed<
    D,
    L: Fn(D, &VulkanResidentBufferPoolKey) -> (D, Result<Option<VulkanArenaAllocation>, String>),
    A: Fn(D, &Vec<VulkanResidentBufferPoolKey>) -> (D, Result<Vec<VulkanArenaAllocation>, String>),
    R: Fn(D, &String, &Vec<TensorStorageRange>) -> (D, Result<VulkanDistributedTensorRead, String>),
    W: Fn(D, &VulkanResidentBuffer, usize, &Vec<u8>) -> (D, Result<(), String>),
    P: Fn(D, &Vec<VulkanResidentBufferPoolAllocation>) -> (D, Result<(), String>),
>(
    lookup: L,
    allocate: A,
    read: R,
    write: W,
    publish: P,
    tensors: TensorIndexModel,
    allocations: Seq<VulkanDistributedParameterAllocationModel>,
    found: Seq<Option<VulkanArenaAllocation>>,
    given: Seq<Vec<VulkanArenaAllocation>>,
    message: Seq<char>,
    at: D,
    to: D,
) -> bool {
    let requests = pool_requests(allocations, found);
    if given.len() < requests.len() {
        batch_gave(
            allocate,
            at,
            tensors,
            allocations,
            requests[given.len() as int].1,
            to,
            Err::<Vec<VulkanArenaAllocation>, Seq<char>>(message),
        )
    } else {
        match pooled_buffers(allocations, found, given) {
            Err(text) => message == text && at == to,
            Ok((buffers, fresh)) => fresh_failed(
                read,
                write,
                publish,
                tensors,
                allocations,
                buffers,
                fresh,
                message,
                at,
                to,
            ),
        }
    }
}

/// Some outcomes of the pool account for a failure.
pub open spec fn pooling_can_fail<
    D,
    L: Fn(D, &VulkanResidentBufferPoolKey) -> (D, Result<Option<VulkanArenaAllocation>, String>),
    A: Fn(D, &Vec<VulkanResidentBufferPoolKey>) -> (D, Result<Vec<VulkanArenaAllocation>, String>),
    R: Fn(D, &String, &Vec<TensorStorageRange>) -> (D, Result<VulkanDistributedTensorRead, String>),
    W: Fn(D, &VulkanResidentBuffer, usize, &Vec<u8>) -> (D, Result<(), String>),
    P: Fn(D, &Vec<VulkanResidentBufferPoolAllocation>) -> (D, Result<(), String>),
>(
    lookup: L,
    allocate: A,
    read: R,
    write: W,
    publish: P,
    tensors: TensorIndexModel,
    allocations: Seq<VulkanDistributedParameterAllocationModel>,
    message: Seq<char>,
    from: D,
    to: D,
) -> bool {
    ||| exists|found: Seq<Option<VulkanArenaAllocation>>| #[trigger]
        lookup_failed(lookup, tensors, allocations, found, message, from, to)
    ||| exists|
        found: Seq<Option<VulkanArenaAllocation>>,
        given: Seq<Vec<VulkanArenaAllocation>>,
        at: D,
    | #[trigger]
        pool_gave(lookup, allocate, tensors, allocations, found, given, from, at)
            && pooling_failed(
            lookup,
            allocate,
            read,
            write,
            publish,
            tensors,
            allocations,
            found,
            given,
            message,
            at,
            to,
        )
}

/// The pool may be asked for what it keeps: for each allocation in turn, once those
/// before it were looked up and found sound.
pub open spec fn pool_can_be_searched<
    D,
    L: Fn(D, &VulkanResidentBufferPoolKey) -> (D, Result<Option<VulkanArenaAllocation>, String>),
>(
    lookup: L,
    tensors: TensorIndexModel,
    allocations: Seq<VulkanDistributedParameterAllocationModel>,
    from: D,
) -> bool {
    forall|found: Seq<Option<VulkanArenaAllocation>>, at: D, key: &VulkanResidentBufferPoolKey|
        #![trigger lookups_gave(lookup, tensors, allocations, found, from, at), call_requires(lookup, (at, key))]
        lookups_gave(lookup, tensors, allocations, found, from, at) && found.len()
            < allocations.len() && placing_fault_from(
            allocations.take(found.len() as int),
            0,
            0,
        ) is None && pool_key(tensors, allocations[found.len() as int]) == Ok::<
            VulkanResidentBufferPoolKeyModel,
            Seq<char>,
        >(key.deep_view()) ==> call_requires(lookup, (at, key))
}

/// The pool may be asked for new allocations: for those that are missing on each
/// device, in the order of the devices, once everything was looked up.
pub open spec fn pool_can_be_asked<
    D,
    L: Fn(D, &VulkanResidentBufferPoolKey) -> (D, Result<Option<VulkanArenaAllocation>, String>),
    A: Fn(D, &Vec<VulkanResidentBufferPoolKey>) -> (D, Result<Vec<VulkanArenaAllocation>, String>),
>(
    lookup: L,
    allocate: A,
    tensors: TensorIndexModel,
    allocations: Seq<VulkanDistributedParameterAllocationModel>,
    from: D,
) -> bool {
    forall|
        found: Seq<Option<VulkanArenaAllocation>>,
        given: Seq<Vec<VulkanArenaAllocation>>,
        at: D,
        keys: &Vec<VulkanResidentBufferPoolKey>,
    |
        #![trigger pool_gave(lookup, allocate, tensors, allocations, found, given, from, at), call_requires(allocate, (at, keys))]
        pool_gave(lookup, allocate, tensors, allocations, found, given, from, at) && given.len()
            < pool_requests(allocations, found).len() && keys.deep_view() == pool_keys_of(
            tensors,
            allocations,
            pool_requests(allocations, found)[given.len() as int].1,
        ) ==> call_requires(allocate, (at, keys))
}

/// The buffers of new allocations may be filled, where their bytes can be counted, and
/// what was filled may be published.
pub open spec fn fresh_can_be_published<
    D,
    R: Fn(D, &String, &Vec<TensorStorageRange>) -> (D, Result<VulkanDistributedTensorRead, String>),
    W: Fn(D, &VulkanResidentBuffer, usize, &Vec<u8>) -> (D, Result<(), String>),
    P: Fn(D, &Vec<VulkanResidentBufferPoolAllocation>) -> (D, Result<(), String>),
>(
    read: R,
    write: W,
    publish: P,
    tensors: TensorIndexModel,
    allocations: Seq<VulkanDistributedParameterAllocationModel>,
    buffers: Seq<VulkanDistributedParameterBufferAllocationModel>,
    fresh: Seq<usize>,
    from: D,
) -> bool {
    let named = named_allocations(allocations, fresh);
    let targets = fresh_targets(allocations, buffers, fresh);
    fresh.len() > 0 && sum_of(named, allocation_bytes()) <= usize::MAX ==> {
        &&& buffers_can_be_filled(read, write, named, targets, from)
        &&& forall|at: D, batch: &Vec<VulkanResidentBufferPoolAllocation>|
            #![trigger filled_by(read, write, named, targets, from, at), call_requires(publish, (at, batch))]
            filled_by(read, write, named, targets, from, at) && batch.deep_view() == publications(
                tensors,
                allocations,
                buffers,
                fresh,
            ) ==> call_requires(publish, (at, batch))
    }
}

/// What the pool gave anew may be loaded and published. What the pool kept is not written,
/// and nothing is published before it is loaded.
pub open spec fn pool_can_be_extended<
    D,
    L: Fn(D, &VulkanResidentBufferPoolKey) -> (D, Result<Option<VulkanArenaAllocation>, String>),
    A: Fn(D, &Vec<VulkanResidentBufferPoolKey>) -> (D, Result<Vec<VulkanArenaAllocation>, String>),
    R: Fn(D, &String, &Vec<TensorStorageRange>) -> (D, Result<VulkanDistributedTensorRead, String>),
    W: Fn(D, &VulkanResidentBuffer, usize, &Vec<u8>) -> (D, Result<(), String>),
    P: Fn(D, &Vec<VulkanResidentBufferPoolAllocation>) -> (D, Result<(), String>),
>(
    lookup: L,
    allocate: A,
    read: R,
    write: W,
    publish: P,
    tensors: TensorIndexModel,
    allocations: Seq<VulkanDistributedParameterAllocationModel>,
    from: D,
) -> bool {
    forall|
        found: Seq<Option<VulkanArenaAllocation>>,
        given: Seq<Vec<VulkanArenaAllocation>>,
        buffers: Seq<VulkanDistributedParameterBufferAllocationModel>,
        fresh: Seq<usize>,
        at: D,
    | #[trigger]
        buffers_were_given(
            lookup,
            allocate,
            tensors,
            allocations,
            found,
            given,
            buffers,
            fresh,
            from,
            at,
        ) ==> fresh_can_be_published(
            read,
            write,
            publish,
            tensors,
            allocations,
            buffers,
            fresh,
            at,
        )
}

/// What is wrong with one allocation more than those that are sound.
proof fn lemma_placing_step(
    allocations: Seq<VulkanDistributedParameterAllocationModel>,
    start: nat,
    bytes: usize,
    count: int,
)
    requires
        start <= count < allocations.len(),
        bytes == sum_of(allocations.take(start as int), allocation_bytes()),
        placing_fault_from(allocations.take(count), start, bytes) is None,
    ensures
        placing_fault_from(allocations.take(count + 1), start, bytes) == (if sum_of(
            allocations.take(count + 1),
            allocation_bytes(),
        ) > usize::MAX {
            Some("distributed parameter buffer byte capacity overflowed"@)
        } else if repeats(allocations, count) {
            Some(repetition_text(allocations[count]))
        } else {
            None
        }),
    decreases count - start,
{
    let shorter = allocations.take(count);
    let longer = allocations.take(count + 1);
    assert(longer.take(start as int) =~= allocations.take(start as int));
    lemma_sum_step(allocations, allocation_bytes(), start as int);
    if start < count {
        assert(shorter.take(start as int) =~= allocations.take(start as int));
        lemma_placing_step(
            allocations,
            start + 1,
            (bytes + allocations[start as int].byte_count) as usize,
            count,
        );
    } else {
        let sum = (bytes + allocations[count].byte_count) as usize;
        assert(placing_fault_from(longer, start + 1, sum) is None);
    }
}

fn list_missing(
    plan: &VulkanDistributedParameterAllocationPlan,
    found: &Vec<Option<VulkanArenaAllocation>>,
) -> (groups: OrderedMap<String, Vec<usize>>)
    requires
        found.len() == plan.allocations.len(),
    ensures
        groups.deep_view() == missing_groups(plan.deep_view().allocations, found@),
{
    let ghost all = plan.deep_view().allocations;
    let mut groups: OrderedMap<String, Vec<usize>> = OrderedMap::new();
    for index in 0..found.len()
        invariant
            found.len() == plan.allocations.len(),
            all == plan.deep_view().allocations,
            groups.deep_view() == missing_groups(all, found@.take(index as int)),
    {
        let device_id = &plan.allocations[index].device_id;
        assert(all[index as int] == plan.allocations@[index as int].deep_view());
        assert(found@.take(index as int + 1).drop_last() =~= found@.take(index as int));
        if found[index].is_none() {
            let ghost earlier = groups.deep_view();
            let mut indices: Vec<usize> = match groups.get(device_id) {
                Some(indices) => indices.duplicate(),
                None => Vec::new(),
            };
            assert(indices.deep_view() =~= (if earlier.contains_key(device_id@) {
                earlier[device_id@]
            } else {
                Seq::empty()
            }));
            append(&mut indices, index);
            groups.insert(device_id.clone(), indices);
        }
    }
    assert(found@.take(found@.len() as int) =~= found@);
    groups
}

fn fill_found(
    plan: &VulkanDistributedParameterAllocationPlan,
    found: &Vec<Option<VulkanArenaAllocation>>,
) -> (slots: Vec<Option<VulkanDistributedParameterBufferAllocation>>)
    requires
        found.len() == plan.allocations.len(),
    ensures
        slots.len() == plan.allocations.len(),
        slots.deep_view() == found_slots(plan.deep_view().allocations, found@),
{
    let ghost all = plan.deep_view().allocations;
    let mut slots: Vec<Option<VulkanDistributedParameterBufferAllocation>> = Vec::new();
    let ghost expected = found_slots(all, found@);
    assert(slots.deep_view() =~= expected.take(0));
    for index in 0..found.len()
        invariant
            found.len() == plan.allocations.len(),
            all == plan.deep_view().allocations,
            expected == found_slots(all, found@),
            slots.len() == index,
            slots.deep_view() == expected.take(index as int),
    {
        let allocation = &plan.allocations[index];
        assert(all[index as int] == allocation.deep_view());
        let slot = match &found[index] {
            Some(arena) => Some(
                VulkanDistributedParameterBufferAllocation {
                    allocation: allocation.duplicate(),
                    buffer: arena.buffer,
                    byte_offset: arena.byte_offset,
                },
            ),
            None => None,
        };
        append(&mut slots, slot);
        assert(expected.take(index as int + 1) =~= expected.take(index as int).push(
            expected[index as int],
        ));
    }
    assert(expected.take(expected.len() as int) =~= expected);
    slots
}

/// Gives the allocations of a plan what the pool kept for them or gave anew, and lists
/// those that it gave anew.
pub fn take_pooled_buffers(
    plan: &VulkanDistributedParameterAllocationPlan,
    found: &Vec<Option<VulkanArenaAllocation>>,
    given: &Vec<Vec<VulkanArenaAllocation>>,
) -> (outcome: Result<
    (Vec<VulkanDistributedParameterBufferAllocation>, Vec<usize>),
    VulkanDistributedParameterBufferError,
>)
    requires
        found.len() == plan.allocations.len(),
        given.len() == pool_requests(plan.deep_view().allocations, found@).len(),
    ensures
        match outcome {
            Ok(taken) => pooled_buffers(plan.deep_view().allocations, found@, given@) == Ok::<
                (Seq<VulkanDistributedParameterBufferAllocationModel>, Seq<usize>),
                Seq<char>,
            >((taken.0.deep_view(), taken.1.deep_view())),
            Err(error) => pooled_buffers(plan.deep_view().allocations, found@, given@) == Err::<
                (Seq<VulkanDistributedParameterBufferAllocationModel>, Seq<usize>),
                Seq<char>,
            >(error.0@),
        },
        outcome is Ok ==> outcome->Ok_0.0.len() == plan.allocations.len(),
        outcome is Ok ==> forall|k: int|
            0 <= k < outcome->Ok_0.1.len() ==> #[trigger] outcome->Ok_0.1@[k]
                < plan.allocations.len(),
{
    let ghost all = plan.deep_view().allocations;
    let ghost requests = pool_requests(all, found@);
    let groups = list_missing(plan, found);
    let mut slots = fill_found(plan, found);
    proof {
        assert(all.len() == plan.allocations.len());
        lemma_pool_requests(all, found@);
    }
    let count: usize = groups.len();
    let mut fresh: Vec<usize> = Vec::new();
    assert(fresh.deep_view() =~= unpublished(requests, given@, 0));
    for group in 0..count
        invariant
            all == plan.deep_view().allocations,
            all.len() == plan.allocations.len(),
            found.len() == all.len(),
            requests == pool_requests(all, found@),
            requests == groups.listing(),
            count == requests.len(),
            count == given.len(),
            slots.len() == plan.allocations.len(),
            forall|g: int, k: int|
                #![trigger requests[g].1[k]]
                0 <= g < requests.len() && 0 <= k < requests[g].1.len() ==> requests[g].1[k]
                    < all.len(),
            slots.deep_view() == groups_filled(
                all,
                found_slots(all, found@),
                requests,
                arena_models(given@),
                group as nat,
            ),
            fresh.deep_view() == unpublished(requests, given@, group as nat),
            forall|k: int| 0 <= k < fresh.len() ==> #[trigger] fresh@[k] < all.len(),
    {
        let indices = groups.value_at(group);
        proof {
            assert forall|k: int| 0 <= k < indices.len() implies #[trigger] indices@[k]
                < plan.allocations.len() by {
                assert(indices.deep_view()[k] == indices@[k]);
                assert(requests[group as int].1[k] == indices@[k]);
            }
        }
        let parts = &given[group];
        fill_group(plan, &mut slots, indices, parts);
        let served: usize = if indices.len() <= parts.len() {
            indices.len()
        } else {
            parts.len()
        };
        let ghost earlier_fresh = fresh@;
        append_served(&mut fresh, indices, served);
        assert forall|k: int| 0 <= k < fresh.len() implies #[trigger] fresh@[k] < all.len() by {
            if k < earlier_fresh.len() {
                assert(earlier_fresh[k] < all.len());
            } else {
                assert(indices@[k - earlier_fresh.len()] < plan.allocations.len());
            }
        }
    }
    proof {
        lemma_slots_len(
            all,
            found_slots(all, found@),
            requests,
            arena_models(given@),
            given@.len(),
        );
    }
    match take_complete(slots) {
        Err(index) => Err(
            VulkanDistributedParameterBufferError(
                join2(
                    "pooled distributed parameter arena did not allocate plan index ",
                    decimal(index).as_str(),
                ),
            ),
        ),
        Ok(buffers) => {
            assert(buffers.deep_view().len() == buffers.len());
            Ok((buffers, fresh))
        },
    }
}

fn list_keys(keys: &Vec<VulkanResidentBufferPoolKey>, indices: &Vec<usize>) -> (listed: Vec<
    VulkanResidentBufferPoolKey,
>)
    requires
        forall|k: int| 0 <= k < indices.len() ==> #[trigger] indices@[k] < keys.len(),
    ensures
        listed.len() == indices.len(),
        forall|k: int|
            0 <= k < indices.len() ==> #[trigger] listed.deep_view()[k]
                == keys.deep_view()[indices@[k] as int],
{
    let mut listed: Vec<VulkanResidentBufferPoolKey> = Vec::new();
    for index in 0..indices.len()
        invariant
            listed.len() == index,
            forall|k: int| 0 <= k < indices.len() ==> #[trigger] indices@[k] < keys.len(),
            forall|k: int|
                0 <= k < index ==> (#[trigger] listed@[k]).deep_view()
                    == keys@[indices@[k] as int].deep_view(),
    {
        listed.push(keys[indices[index]].duplicate());
    }
    assert forall|k: int| 0 <= k < indices.len() implies #[trigger] listed.deep_view()[k]
        == keys.deep_view()[indices@[k] as int] by {
        assert(listed@[k].deep_view() == keys@[indices@[k] as int].deep_view());
    }
    listed
}

fn append_served(fresh: &mut Vec<usize>, indices: &Vec<usize>, count: usize)
    requires
        count <= indices.len(),
    ensures
        final(fresh).deep_view() == old(fresh).deep_view() + indices.deep_view().take(count as int),
        final(fresh)@ == old(fresh)@ + indices@.take(count as int),
{
    let ghost before = fresh.deep_view();
    let ghost all = indices.deep_view();
    let ghost values = fresh@;
    assert(before =~= before + all.take(0));
    assert(values =~= values + indices@.take(0));
    for index in 0..count
        invariant
            count <= indices.len(),
            all == indices.deep_view(),
            fresh.deep_view() == before + all.take(index as int),
            fresh@ == values + indices@.take(index as int),
    {
        append(fresh, indices[index]);
        assert(fresh.deep_view() =~= before + all.take(index as int + 1));
        assert(fresh@ =~= values + indices@.take(index as int + 1));
    }
}

fn named_plan(
    plan: &VulkanDistributedParameterAllocationPlan,
    indices: &Vec<usize>,
) -> (outcome: Result<
    VulkanDistributedParameterAllocationPlan,
    VulkanDistributedParameterBufferError,
>)
    requires
        forall|k: int| 0 <= k < indices.len() ==> #[trigger] indices@[k] < plan.allocations.len(),
    ensures
        match outcome {
            Ok(named) => named.deep_view().allocations == named_allocations(
                plan.deep_view().allocations,
                indices.deep_view(),
            ) && sum_of(named.deep_view().allocations, allocation_bytes()) <= usize::MAX,
            Err(error) => sum_of(
                named_allocations(plan.deep_view().allocations, indices.deep_view()),
                allocation_bytes(),
            ) > usize::MAX && error.0@
                == "pooled distributed parameter load byte count overflowed"@,
        },
{
    let ghost expected = named_allocations(plan.deep_view().allocations, indices.deep_view());
    let mut allocations: Vec<VulkanDistributedParameterAllocation> = Vec::new();
    for index in 0..indices.len()
        invariant
            allocations.len() == index,
            forall|k: int|
                0 <= k < indices.len() ==> #[trigger] indices@[k] < plan.allocations.len(),
            forall|k: int|
                0 <= k < index ==> (#[trigger] allocations@[k]).deep_view()
                    == plan.allocations@[indices@[k] as int].deep_view(),
    {
        allocations.push(plan.allocations[indices[index]].duplicate());
    }
    assert(allocations.deep_view() =~= expected);
    match total_allocation_bytes(&allocations) {
        None => Err(
            VulkanDistributedParameterBufferError(
                "pooled distributed parameter load byte count overflowed".to_owned(),
            ),
        ),
        Some(total_byte_capacity) => {
            let tensor_count: usize = count_tensors(&allocations);
            Ok(
                VulkanDistributedParameterAllocationPlan {
                    allocation_count: allocations.len(),
                    tensor_count,
                    total_byte_capacity,
                    allocations,
                },
            )
        },
    }
}

fn list_publications(
    keys: &Vec<VulkanResidentBufferPoolKey>,
    buffers: &Vec<VulkanDistributedParameterBufferAllocation>,
    indices: &Vec<usize>,
    Ghost(tensors): Ghost<TensorIndexModel>,
    Ghost(allocations): Ghost<Seq<VulkanDistributedParameterAllocationModel>>,
) -> (published: Vec<VulkanResidentBufferPoolAllocation>)
    requires
        keys.len() == buffers.len(),
        keys.len() == allocations.len(),
        forall|k: int| 0 <= k < indices.len() ==> #[trigger] indices@[k] < keys.len(),
        forall|i: int|
            0 <= i < keys.len() ==> pool_key(tensors, allocations[i]) == Ok::<
                VulkanResidentBufferPoolKeyModel,
                Seq<char>,
            >(#[trigger] keys.deep_view()[i]),
    ensures
        published.deep_view() == publications(
            tensors,
            allocations,
            buffers.deep_view(),
            indices.deep_view(),
        ),
{
    let ghost expected = publications(
        tensors,
        allocations,
        buffers.deep_view(),
        indices.deep_view(),
    );
    let mut published: Vec<VulkanResidentBufferPoolAllocation> = Vec::new();
    assert(published.deep_view() =~= expected.take(0));
    for index in 0..indices.len()
        invariant
            keys.len() == buffers.len(),
            keys.len() == allocations.len(),
            forall|k: int| 0 <= k < indices.len() ==> #[trigger] indices@[k] < keys.len(),
            forall|i: int|
                0 <= i < keys.len() ==> pool_key(tensors, allocations[i]) == Ok::<
                    VulkanResidentBufferPoolKeyModel,
                    Seq<char>,
                >(#[trigger] keys.deep_view()[i]),
            expected == publications(
                tensors,
                allocations,
                buffers.deep_view(),
                indices.deep_view(),
            ),
            published.deep_view() == expected.take(index as int),
    {
        let place: usize = indices[index];
        assert(indices.deep_view()[index as int] == place);
        assert(buffers.deep_view()[place as int] == buffers@[place as int].deep_view());
        assert(keys.deep_view()[place as int] == keys@[place as int].deep_view());
        let buffer = &buffers[place];
        append(
            &mut published,
            VulkanResidentBufferPoolAllocation {
                key: keys[place].duplicate(),
                buffer: buffer.buffer,
                byte_offset: buffer.byte_offset,
                byte_count: buffer.allocation.byte_count,
            },
        );
        assert(expected.take(index as int + 1) =~= expected.take(index as int).push(
            expected[index as int],
        ));
    }
    assert(expected.take(expected.len() as int) =~= expected);
    published
}

impl VulkanDistributedParameterBuffers {
    /// Makes the parameters of a plan resident out of a pool: what the pool keeps
    /// already is shared, and the rest is allocated, loaded and published.
    pub fn allocate_and_load_from_pool<
        D,
        L: Fn(D, &VulkanResidentBufferPoolKey) -> (
            D,
            Result<Option<VulkanArenaAllocation>, String>,
        ),
        A: Fn(D, &Vec<VulkanResidentBufferPoolKey>) -> (
            D,
            Result<Vec<VulkanArenaAllocation>, String>,
        ),
        R: Fn(D, &String, &Vec<TensorStorageRange>) -> (
            D,
            Result<VulkanDistributedTensorRead, String>,
        ),
        W: Fn(D, &VulkanResidentBuffer, usize, &Vec<u8>) -> (D, Result<(), String>),
        P: Fn(D, &Vec<VulkanResidentBufferPoolAllocation>) -> (D, Result<(), String>),
    >(
        plan: &VulkanDistributedParameterAllocationPlan,
        tensor_index: &TensorIndex,
        devices: D,
        lookup: &L,
        allocate: &A,
        read: &R,
        write: &W,
        publish: &P,
    ) -> (result: (Result<Self, VulkanDistributedParameterBufferError>, D))
        requires
            pool_can_be_searched(
                *lookup,
                tensor_index.deep_view(),
                plan.deep_view().allocations,
                devices,
            ),
            pool_can_be_asked(
                *lookup,
                *allocate,
                tensor_index.deep_view(),
                plan.deep_view().allocations,
                devices,
            ),
            pool_can_be_extended(
                *lookup,
                *allocate,
                *read,
                *write,
                *publish,
                tensor_index.deep_view(),
                plan.deep_view().allocations,
                devices,
            ),
        ensures
            match result.0 {
                Ok(mounted) => mounted.plan.deep_view() == plan.deep_view()
                    && mounted.total_byte_capacity == sum_of(
                    plan.deep_view().allocations,
                    allocation_bytes(),
                ) && pooled_by(
                    *lookup,
                    *allocate,
                    *read,
                    *write,
                    *publish,
                    tensor_index.deep_view(),
                    plan.deep_view().allocations,
                    mounted.buffers.deep_view(),
                    devices,
                    result.1,
                ),
                Err(error) => pooling_can_fail(
                    *lookup,
                    *allocate,
                    *read,
                    *write,
                    *publish,
                    tensor_index.deep_view(),
                    plan.deep_view().allocations,
                    error.0@,
                    devices,
                    result.1,
                ),
            },
    {
        let ghost all = plan.deep_view().allocations;
        let ghost tensors = tensor_index.deep_view();
        let ghost measure = allocation_bytes();
        let ghost from = devices;
        let mut current = devices;
        proof {
            assert(all.len() == plan.allocations.len());
        }
        let mut places: OrderedMap<AllocationKey, usize> = OrderedMap::new();
        let mut keys: Vec<VulkanResidentBufferPoolKey> = Vec::new();
        let mut total_byte_capacity: usize = 0;
        let mut found: Vec<Option<VulkanArenaAllocation>> = Vec::new();
        for index in 0..plan.allocations.len()
            invariant
                from == devices,
                pool_can_be_searched(*lookup, tensors, all, from),
                all == plan.deep_view().allocations,
                all.len() == plan.allocations.len(),
                tensors == tensor_index.deep_view(),
                measure == allocation_bytes(),
                found.len() == index,
                lookups_gave(*lookup, tensors, all, found@, from, current),
                places.deep_view() == allocation_places(all.take(index as int)),
                total_byte_capacity == sum_of(all.take(index as int), measure),
                placing_fault_from(all.take(index as int), 0, 0) is None,
                keys.len() == index,
                forall|i: int|
                    0 <= i < index ==> pool_key(tensors, all[i]) == Ok::<
                        VulkanResidentBufferPoolKeyModel,
                        Seq<char>,
                    >(#[trigger] keys.deep_view()[i]),
        {
            let allocation = &plan.allocations[index];
            assert(all[index as int] == allocation.deep_view());
            assert(all.take(index as int + 1).drop_last() =~= all.take(index as int));
            proof {
                lemma_sum_step(all, measure, index as int);
                assert(all.take(0) =~= Seq::empty());
                lemma_placing_step(all, 0, 0, index as int);
            }
            let key = match make_pool_key(tensor_index, allocation) {
                Err(error) => {
                    assert(lookup_failed(
                        *lookup,
                        tensors,
                        all,
                        found@,
                        error.0@,
                        from,
                        current,
                    ));
                    return (Err(error), current);
                },
                Ok(key) => key,
            };
            let ghost at = current;
            let (left, looked_up) = lookup(current, &key);
            current = left;
            proof {
                assert(call_ensures(*lookup, (at, &key), (current, looked_up)));
                assert(lookup_gave(
                    *lookup,
                    at,
                    tensors,
                    all[index as int],
                    current,
                    told(looked_up),
                ));
            }
            match looked_up {
                Err(text) => {
                    assert(lookup_failed(
                        *lookup,
                        tensors,
                        all,
                        found@,
                        text@,
                        from,
                        current,
                    ));
                    return (Err(VulkanDistributedParameterBufferError(text)), current);
                },
                Ok(kept) => {
                    let ghost before = found@;
                    found.push(kept);
                    assert(found@.drop_last() =~= before);
                    assert(lookup_gave(
                        *lookup,
                        at,
                        tensors,
                        all[found@.len() - 1],
                        current,
                        Ok::<Option<VulkanArenaAllocation>, Seq<char>>(found@.last()),
                    ));
                    assert(lookups_gave(*lookup, tensors, all, found@, from, current));
                },
            }
            let ghost earlier_keys = keys.deep_view();
            append(&mut keys, key);
            proof {
                assert forall|i: int| 0 <= i < index + 1 implies pool_key(tensors, all[i]) == Ok::<
                    VulkanResidentBufferPoolKeyModel,
                    Seq<char>,
                >(#[trigger] keys.deep_view()[i]) by {
                    if i < index {
                        assert(keys.deep_view()[i] == earlier_keys[i]);
                    }
                }
            }
            match total_byte_capacity.checked_add(allocation.byte_count) {
                None => {
                    let error = VulkanDistributedParameterBufferError(
                        "distributed parameter buffer byte capacity overflowed".to_owned(),
                    );
                    assert(lookup_failed(
                        *lookup,
                        tensors,
                        all,
                        found@,
                        error.0@,
                        from,
                        current,
                    ));
                    return (Err(error), current);
                },
                Some(sum) => {
                    total_byte_capacity = sum;
                },
            }
            if places.insert(key_of(allocation), index).is_some() {
                let error = repetition_error(allocation);
                assert(lookup_failed(
                        *lookup,
                        tensors,
                        all,
                        found@,
                        error.0@,
                        from,
                        current,
                    ));
                return (Err(error), current);
            }
        }
        assert(all.take(all.len() as int) =~= all);
        let ghost requests = pool_requests(all, found@);
        proof {
            lemma_pool_requests(all, found@);
        }
        let groups = list_missing(plan, &found);
        let count: usize = groups.len();
        let mut given: Vec<Vec<VulkanArenaAllocation>> = Vec::new();
        let ghost searched = current;
        assert(pool_gave(*lookup, *allocate, tensors, all, found@, given@, from, current));
        for group in 0..count
            invariant
                from == devices,
                pool_can_be_asked(*lookup, *allocate, tensors, all, from),
                all == plan.deep_view().allocations,
                all.len() == plan.allocations.len(),
                tensors == tensor_index.deep_view(),
                found.len() == all.len(),
                lookups_gave(*lookup, tensors, all, found@, from, searched),
                placing_fault_from(all, 0, 0) is None,
                requests == pool_requests(all, found@),
                requests == groups.listing(),
                count == requests.len(),
                keys.len() == all.len(),
                forall|i: int|
                    0 <= i < all.len() ==> pool_key(tensors, all[i]) == Ok::<
                        VulkanResidentBufferPoolKeyModel,
                        Seq<char>,
                    >(#[trigger] keys.deep_view()[i]),
                forall|g: int, k: int|
                    #![trigger requests[g].1[k]]
                    0 <= g < requests.len() && 0 <= k < requests[g].1.len() ==> requests[g].1[k]
                        < all.len(),
                given.len() == group,
                batches_gave(*allocate, tensors, all, found@, given@, searched, current),
        {
            let indices = groups.value_at(group);
            proof {
                assert forall|k: int| 0 <= k < indices.len() implies #[trigger] indices@[k]
                    < plan.allocations.len() by {
                    assert(indices.deep_view()[k] == indices@[k]);
                    assert(requests[group as int].1[k] == indices@[k]);
                }
            }
            let batch = list_keys(&keys, indices);
            proof {
                assert(batch.deep_view() =~= pool_keys_of(
                    tensors,
                    all,
                    requests[group as int].1,
                )) by {
                    assert forall|k: int| 0 <= k < indices.len() implies batch.deep_view()[k]
                        == pool_keys_of(tensors, all, requests[group as int].1)[k] by {
                        assert(batch.deep_view()[k] == keys.deep_view()[indices@[k] as int]);
                        assert(requests[group as int].1[k] == indices@[k]);
                    }
                }
            }
            let ghost at = current;
            assert(pool_gave(*lookup, *allocate, tensors, all, found@, given@, from, at));
            let (left, arenas) = allocate(current, &batch);
            current = left;
            proof {
                assert(call_ensures(*allocate, (at, &batch), (current, arenas)));
                assert(batch_gave(
                    *allocate,
                    at,
                    tensors,
                    all,
                    requests[group as int].1,
                    current,
                    told(arenas),
                ));
            }
            match arenas {
                Err(text) => {
                    assert(pooling_failed(
                        *lookup,
                        *allocate,
                        *read,
                        *write,
                        *publish,
                        tensors,
                        all,
                        found@,
                        given@,
                        text@,
                        at,
                        current,
                    ));
                    return (Err(VulkanDistributedParameterBufferError(text)), current);
                },
                Ok(parts) => {
                    let ghost earlier = given@;
                    given.push(parts);
                    assert(given@.drop_last() =~= earlier);
                    assert(batch_gave(
                        *allocate,
                        at,
                        tensors,
                        all,
                        requests[given@.len() - 1].1,
                        current,
                        Ok::<Vec<VulkanArenaAllocation>, Seq<char>>(given@.last()),
                    ));
                    assert(batches_gave(
                        *allocate,
                        tensors,
                        all,
                        found@,
                        given@,
                        searched,
                        current,
                    ));
                },
            }
        }
        let ghost at = current;
        assert(pool_gave(*lookup, *allocate, tensors, all, found@, given@, from, at));
        let (buffers, fresh) = match take_pooled_buffers(plan, &found, &given) {
            Err(error) => {
                assert(pooling_failed(
                    *lookup,
                    *allocate,
                    *read,
                    *write,
                    *publish,
                    tensors,
                    all,
                    found@,
                    given@,
                    error.0@,
                    at,
                    current,
                ));
                return (Err(error), current);
            },
            Ok(taken) => taken,
        };
        assert(fresh.deep_view().len() == fresh.len());
        if fresh.len() > 0 {
            let load_plan = match named_plan(plan, &fresh) {
                Err(error) => {
                    assert(pooling_failed(
                        *lookup,
                        *allocate,
                        *read,
                        *write,
                        *publish,
                        tensors,
                        all,
                        found@,
                        given@,
                        error.0@,
                        at,
                        current,
                    ));
                    return (Err(error), current);
                },
                Ok(load_plan) => load_plan,
            };
            proof {
                assert(load_plan.allocations.len() == load_plan.deep_view().allocations.len());
                assert forall|k: int| 0 <= k < load_plan.allocations.len() implies has_place(
                    places.deep_view(),
                    buffers.deep_view().len(),
                    #[trigger] load_plan.deep_view().allocations[k],
                ) by {
                    let index = fresh.deep_view()[k] as int;
                    assert(fresh@[k] < plan.allocations.len());
                    assert forall|i: int| 0 <= i < all.len() implies !#[trigger] repeats(
                        all,
                        i,
                    ) by {
                        lemma_no_repeats(all, 0, 0, i);
                    }
                    lemma_places(all, index);
                }
                assert(buffers_were_given(
                    *lookup,
                    *allocate,
                    tensors,
                    all,
                    found@,
                    given@,
                    buffers.deep_view(),
                    fresh.deep_view(),
                    from,
                    at,
                ));
            }
            let (filled, left) = fill_buffers(
                &load_plan,
                &buffers,
                &places,
                current,
                read,
                write,
                "pooled distributed parameter buffer for tensor ",
            );
            current = left;
            match filled {
                Err(error) => {
                    assert(pooling_failed(
                        *lookup,
                        *allocate,
                        *read,
                        *write,
                        *publish,
                        tensors,
                        all,
                        found@,
                        given@,
                        error.0@,
                        at,
                        current,
                    ));
                    return (Err(error), current);
                },
                Ok(_) => {},
            }
            let ghost loaded = current;
            let published = list_publications(
                &keys,
                &buffers,
                &fresh,
                Ghost(tensors),
                Ghost(all),
            );
            let (left, taken) = publish(current, &published);
            current = left;
            proof {
                assert(call_ensures(*publish, (loaded, &published), (current, taken)));
                assert(publication_gave(
                    *publish,
                    loaded,
                    publications(tensors, all, buffers.deep_view(), fresh.deep_view()),
                    current,
                    told(taken),
                ));
            }
            match taken {
                Err(text) => {
                    assert(pooling_failed(
                        *lookup,
                        *allocate,
                        *read,
                        *write,
                        *publish,
                        tensors,
                        all,
                        found@,
                        given@,
                        text@,
                        at,
                        current,
                    ));
                    return (Err(VulkanDistributedParameterBufferError(text)), current);
                },
                Ok(unit) => {
                    assert(unit == ());
                },
            }
        }
        proof {
            assert(buffers_were_given(
                *lookup,
                *allocate,
                tensors,
                all,
                found@,
                given@,
                buffers.deep_view(),
                fresh.deep_view(),
                from,
                at,
            ));
            assert(fresh_were_published(
                *read,
                *write,
                *publish,
                tensors,
                all,
                buffers.deep_view(),
                fresh.deep_view(),
                at,
                current,
            ));
        }
        (
            Ok(
                VulkanDistributedParameterBuffers {
                    plan: plan.duplicate(),
                    buffers,
                    total_byte_capacity,
                },
            ),
            current,
        )
    }
}

} // verus!
