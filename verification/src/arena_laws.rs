//! Laws of placing parameters in the buffers of devices.
use vstd::prelude::*;

use crate::ordered::{lemma_listed_at, lemma_ordered_listing_exists, lists_key};
use crate::parameter_buffers::{
    VulkanDistributedParameterBufferAllocationModel, VulkanResidentBufferPoolKeyModel,
};
use crate::parameter_mounting::{
    allocation_key, allocation_places, arena_requests, complete, device_groups, group_filled,
    groups_filled, no_buffers, placing_fault_from, repeats, requested_bytes, resident,
};
use crate::parameter_plans::VulkanDistributedParameterAllocationModel;
use crate::parameter_pool::{
    found_slots, missing_groups, pool_key, pool_requests, publications,
};
use crate::prepared::{TensorContentIdentityModel, TensorIndexModel};
use crate::resident::VulkanArenaAllocation;

verus! {

/// The indices are those of a device: all of its allocations in their order, and no other.
pub open spec fn are_of_device(
    allocations: Seq<VulkanDistributedParameterAllocationModel>,
    device_id: Seq<char>,
    indices: Seq<usize>,
) -> bool {
    &&& forall|k: int|
        0 <= k < indices.len() ==> #[trigger] indices[k] < allocations.len()
            && allocations[indices[k] as int].device_id == device_id
    &&& forall|a: int|
        0 <= a < allocations.len() && (#[trigger] allocations[a]).device_id == device_id
            ==> indices.contains(a as usize)
    &&& forall|j: int, k: int|
        #![trigger indices[j], indices[k]]
        0 <= j < k < indices.len() ==> indices[j] < indices[k]
}

proof fn lemma_device_group(
    allocations: Seq<VulkanDistributedParameterAllocationModel>,
    device_id: Seq<char>,
)
    requires
        allocations.len() <= usize::MAX,
    ensures
        device_groups(allocations).dom().finite(),
        device_groups(allocations).contains_key(device_id) <==> exists|a: int|
            0 <= a < allocations.len() && (#[trigger] allocations[a]).device_id == device_id,
        device_groups(allocations).contains_key(device_id) ==> are_of_device(
            allocations,
            device_id,
            device_groups(allocations)[device_id],
        ),
    decreases allocations.len(),
{
    if allocations.len() > 0 {
        let rest = allocations.drop_last();
        let last = allocations.len() - 1;
        lemma_device_group(rest, device_id);
        let groups = device_groups(rest);
        if groups.contains_key(device_id) {
            let a = choose|a: int|
                0 <= a < rest.len() && (#[trigger] rest[a]).device_id == device_id;
            assert(allocations[a].device_id == device_id);
        }
        if exists|a: int|
            0 <= a < allocations.len() && (#[trigger] allocations[a]).device_id == device_id {
            let a = choose|a: int|
                0 <= a < allocations.len() && (#[trigger] allocations[a]).device_id == device_id;
            if a < last {
                assert(rest[a].device_id == device_id);
            }
        }
        if device_groups(allocations).contains_key(device_id) {
            let earlier = if groups.contains_key(device_id) {
                groups[device_id]
            } else {
                Seq::empty()
            };
            let all = device_groups(allocations)[device_id];
            assert forall|k: int| 0 <= k < earlier.len() implies #[trigger] earlier[k] < last
                && allocations[earlier[k] as int].device_id == device_id by {
                assert(rest[earlier[k] as int] == allocations[earlier[k] as int]);
            }
            if allocations[last].device_id == device_id {
                assert(all == earlier.push(last as usize));
            } else {
                assert(all == earlier);
            }
            assert forall|a: int|
                0 <= a < allocations.len() && (
                #[trigger] allocations[a]).device_id == device_id implies all.contains(
                a as usize,
            ) by {
                if a < last {
                    assert(rest[a].device_id == device_id);
                    assert(earlier.contains(a as usize));
                    let k = choose|k: int| 0 <= k < earlier.len() && earlier[k] == a as usize;
                    assert(all[k] == a as usize);
                } else {
                    assert(all[all.len() - 1] == a as usize);
                }
            }
        }
    }
}

/// Every device with an allocation is asked once, for all of its allocations in their order
/// and for no other; each as large as it is planned.
pub proof fn law_devices_are_asked_for_their_allocations(
    allocations: Seq<VulkanDistributedParameterAllocationModel>,
)
    requires
        allocations.len() <= usize::MAX,
    ensures
        ({
            let requests = arena_requests(allocations);
            &&& forall|r: int|
                0 <= r < requests.len() ==> are_of_device(
                    allocations,
                    (#[trigger] requests[r]).0,
                    requests[r].1,
                )
            &&& forall|q: int, r: int|
                #![trigger requests[q], requests[r]]
                0 <= q < r < requests.len() ==> requests[q].0 != requests[r].0
            &&& forall|a: int|
                0 <= a < allocations.len() ==> is_asked(
                    requests,
                    (#[trigger] allocations[a]).device_id,
                )
            &&& forall|r: int, k: int|
                #![trigger requests[r].1[k]]
                0 <= r < requests.len() && 0 <= k < requests[r].1.len() ==> requested_bytes(
                    allocations,
                    requests[r].1,
                )[k] == allocations[requests[r].1[k] as int].byte_count
        }),
{
    let groups = device_groups(allocations);
    let requests = arena_requests(allocations);
    lemma_device_group(allocations, Seq::empty());
    lemma_ordered_listing_exists::<String, Seq<usize>>(groups);
    assert forall|r: int| 0 <= r < requests.len() implies are_of_device(
        allocations,
        (#[trigger] requests[r]).0,
        requests[r].1,
    ) by {
        lemma_listed_at::<String, Seq<usize>>(requests, r);
        lemma_device_group(allocations, requests[r].0);
    }
    assert forall|q: int, r: int|
        #![trigger requests[q], requests[r]]
        0 <= q < r < requests.len() implies requests[q].0 != requests[r].0 by {
        assert(<String as crate::values::OrderedKey>::before(requests[q].0, requests[r].0));
        <String as crate::values::OrderedKey>::order_is_irreflexive(requests[q].0);
    }
    assert forall|a: int| 0 <= a < allocations.len() implies is_asked(
        requests,
        (#[trigger] allocations[a]).device_id,
    ) by {
        let device_id = allocations[a].device_id;
        lemma_device_group(allocations, device_id);
        assert(lists_key(requests, device_id));
        let k = choose|k: int| 0 <= k < requests.len() && #[trigger] requests[k].0 == device_id;
        assert(requests[k].0 == device_id);
    }
}

/// Some request is for a device.
pub open spec fn is_asked(requests: Seq<(Seq<char>, Seq<usize>)>, device_id: Seq<char>) -> bool {
    exists|r: int| 0 <= r < requests.len() && (#[trigger] requests[r]).0 == device_id
}

/// Requests name every allocation at most once.
pub open spec fn name_apart(requests: Seq<(Seq<char>, Seq<usize>)>, count: nat) -> bool {
    &&& forall|r: int, k: int|
        #![trigger requests[r].1[k]]
        0 <= r < requests.len() && 0 <= k < requests[r].1.len() ==> requests[r].1[k] < count
    &&& forall|q: int, j: int, r: int, k: int|
        #![trigger requests[q].1[j], requests[r].1[k]]
        0 <= q < requests.len() && 0 <= j < requests[q].1.len() && 0 <= r < requests.len() && 0
            <= k < requests[r].1.len() && requests[q].1[j] == requests[r].1[k] ==> q == r && j == k
}

proof fn lemma_group_placed(
    allocations: Seq<VulkanDistributedParameterAllocationModel>,
    slots: Seq<Option<VulkanDistributedParameterBufferAllocationModel>>,
    indices: Seq<usize>,
    arenas: Seq<VulkanArenaAllocation>,
    count: nat,
)
    requires
        slots.len() == allocations.len(),
        count <= indices.len(),
        forall|k: int| 0 <= k < indices.len() ==> #[trigger] indices[k] < allocations.len(),
        indices.no_duplicates(),
    ensures
        ({
            let filled = group_filled(allocations, slots, indices, arenas, count);
            &&& filled.len() == slots.len()
            &&& forall|k: int|
                0 <= k < count ==> filled[(#[trigger] indices[k]) as int] == Some(
                    resident(allocations[indices[k] as int], arenas[k]),
                )
            &&& forall|i: int|
                0 <= i < slots.len() && !indices.contains(i as usize) ==> #[trigger] filled[i]
                    == slots[i]
        }),
    decreases count,
{
    if count > 0 {
        let less = (count - 1) as nat;
        lemma_group_placed(allocations, slots, indices, arenas, less);
        let index = indices[less as int];
        let before = group_filled(allocations, slots, indices, arenas, less);
        let filled = group_filled(allocations, slots, indices, arenas, count);
        assert forall|k: int| 0 <= k < count implies filled[(#[trigger] indices[k]) as int] == Some(
            resident(allocations[indices[k] as int], arenas[k]),
        ) by {
            if k < less {
                assert(indices[k] != index);
                assert(before[indices[k] as int] == Some(
                    resident(allocations[indices[k] as int], arenas[k]),
                ));
            }
        }
        assert forall|i: int|
            0 <= i < slots.len() && !indices.contains(i as usize) implies #[trigger] filled[i]
            == slots[i] by {
            assert(indices.contains(index));
            assert(before[i] == slots[i]);
        }
    }
}

proof fn lemma_groups_placed(
    allocations: Seq<VulkanDistributedParameterAllocationModel>,
    start: Seq<Option<VulkanDistributedParameterBufferAllocationModel>>,
    requests: Seq<(Seq<char>, Seq<usize>)>,
    arenas: Seq<Seq<VulkanArenaAllocation>>,
    count: nat,
)
    requires
        allocations.len() <= usize::MAX,
        start.len() == allocations.len(),
        count <= requests.len(),
        arenas.len() == requests.len(),
        forall|r: int|
            0 <= r < requests.len() ==> (#[trigger] arenas[r]).len() == requests[r].1.len(),
        name_apart(requests, allocations.len()),
    ensures
        ({
            let filled = groups_filled(allocations, start, requests, arenas, count);
            &&& filled.len() == start.len()
            &&& forall|r: int, k: int|
                #![trigger requests[r].1[k]]
                0 <= r < count && 0 <= k < requests[r].1.len() ==> filled[requests[r].1[k] as int]
                    == Some(resident(allocations[requests[r].1[k] as int], arenas[r][k]))
            &&& forall|i: int|
                0 <= i < start.len() && !is_named(requests, i as usize) ==> #[trigger] filled[i]
                    == start[i]
        }),
    decreases count,
{
    if count > 0 {
        let less = (count - 1) as nat;
        lemma_groups_placed(allocations, start, requests, arenas, less);
        let before = groups_filled(allocations, start, requests, arenas, less);
        let indices = requests[less as int].1;
        assert(arenas[less as int].len() == indices.len());
        assert forall|k: int| 0 <= k < indices.len() implies #[trigger] indices[k]
            < allocations.len() by {
            assert(requests[less as int].1[k] < allocations.len());
        }
        assert forall|j: int, k: int|
            0 <= j < indices.len() && 0 <= k < indices.len() && j != k implies indices[j]
            != indices[k] by {
            assert(requests[less as int].1[j] == indices[j]);
            assert(requests[less as int].1[k] == indices[k]);
        }
        lemma_group_placed(
            allocations,
            before,
            indices,
            arenas[less as int],
            indices.len(),
        );
        let filled = groups_filled(allocations, start, requests, arenas, count);
        assert forall|r: int, k: int|
            #![trigger requests[r].1[k]]
            0 <= r < count && 0 <= k < requests[r].1.len() implies filled[requests[r].1[k] as int]
            == Some(resident(allocations[requests[r].1[k] as int], arenas[r][k])) by {
            let index = requests[r].1[k];
            if r < less {
                if indices.contains(index) {
                    let j = choose|j: int| 0 <= j < indices.len() && indices[j] == index;
                    assert(requests[less as int].1[j] == index);
                }
                assert(filled[index as int] == before[index as int]);
            } else {
                assert(indices[k] == index);
            }
        }
        assert forall|i: int|
            0 <= i < start.len() && !is_named(requests, i as usize) implies #[trigger] filled[i]
            == start[i] by {
            if indices.contains(i as usize) {
                let j = choose|j: int| 0 <= j < indices.len() && indices[j] == i as usize;
                assert(requests[less as int].1[j] == i as usize);
            }
            assert(before[i] == start[i]);
        }
    }
}

/// Some request names an allocation.
pub open spec fn is_named(requests: Seq<(Seq<char>, Seq<usize>)>, index: usize) -> bool {
    exists|r: int, k: int|
        #![trigger requests[r].1[k]]
        0 <= r < requests.len() && 0 <= k < requests[r].1.len() && requests[r].1[k] == index
}

proof fn lemma_requests_name_apart(
    allocations: Seq<VulkanDistributedParameterAllocationModel>,
    requests: Seq<(Seq<char>, Seq<usize>)>,
)
    requires
        forall|r: int, k: int|
            #![trigger requests[r].1[k]]
            0 <= r < requests.len() && 0 <= k < requests[r].1.len() ==> requests[r].1[k]
                < allocations.len() && allocations[requests[r].1[k] as int].device_id
                == requests[r].0,
        forall|r: int, j: int, k: int|
            #![trigger requests[r].1[j], requests[r].1[k]]
            0 <= r < requests.len() && 0 <= j < k < requests[r].1.len() ==> requests[r].1[j]
                < requests[r].1[k],
        forall|q: int, r: int|
            #![trigger requests[q], requests[r]]
            0 <= q < r < requests.len() ==> requests[q].0 != requests[r].0,
    ensures
        name_apart(requests, allocations.len()),
{
    assert forall|q: int, j: int, r: int, k: int|
        #![trigger requests[q].1[j], requests[r].1[k]]
        0 <= q < requests.len() && 0 <= j < requests[q].1.len() && 0 <= r < requests.len() && 0
            <= k < requests[r].1.len() && requests[q].1[j] == requests[r].1[k] implies q == r && j
        == k by {
        assert(requests[q].0 == requests[r].0);
        if q < r {
            assert(requests[q].0 != requests[r].0);
        } else if r < q {
            assert(requests[r].0 != requests[q].0);
        } else if j < k {
            assert(requests[q].1[j] < requests[q].1[k]);
        } else if k < j {
            assert(requests[q].1[k] < requests[q].1[j]);
        }
    }
}

/// Every allocation gets the part of a buffer that its own device gave for it: the part that
/// a device gives at a place is that of the allocation that it was asked for at that place.
pub proof fn law_allocations_get_their_own_part(
    allocations: Seq<VulkanDistributedParameterAllocationModel>,
    arenas: Seq<Seq<VulkanArenaAllocation>>,
    request: int,
    place: int,
)
    requires
        allocations.len() <= usize::MAX,
        arenas.len() == arena_requests(allocations).len(),
        forall|r: int|
            0 <= r < arenas.len() ==> (#[trigger] arenas[r]).len() == arena_requests(
                allocations,
            )[r].1.len(),
        0 <= request < arenas.len(),
        0 <= place < arenas[request].len(),
    ensures
        ({
            let requests = arena_requests(allocations);
            let slots = groups_filled(
                allocations,
                no_buffers(allocations.len()),
                requests,
                arenas,
                arenas.len(),
            );
            let index = requests[request].1[place] as int;
            let buffer = complete(slots)[index];
            &&& index < allocations.len()
            &&& allocations[index].device_id == requests[request].0
            &&& slots[index] is Some
            &&& buffer.allocation == allocations[index]
            &&& buffer.buffer == arenas[request][place].buffer
            &&& buffer.byte_offset == arenas[request][place].byte_offset
        }),
{
    let requests = arena_requests(allocations);
    law_devices_are_asked_for_their_allocations(allocations);
    assert forall|r: int, k: int|
        #![trigger requests[r].1[k]]
        0 <= r < requests.len() && 0 <= k < requests[r].1.len() implies requests[r].1[k]
        < allocations.len() && allocations[requests[r].1[k] as int].device_id == requests[r].0 by {
        assert(are_of_device(allocations, requests[r].0, requests[r].1));
        let indices = requests[r].1;
        assert(indices[k] < allocations.len());
    }
    assert forall|r: int, j: int, k: int|
        #![trigger requests[r].1[j], requests[r].1[k]]
        0 <= r < requests.len() && 0 <= j < k < requests[r].1.len() implies requests[r].1[j]
        < requests[r].1[k] by {
        assert(are_of_device(allocations, requests[r].0, requests[r].1));
        let indices = requests[r].1;
        assert(indices[j] < indices[k]);
    }
    lemma_requests_name_apart(allocations, requests);
    lemma_groups_placed(
        allocations,
        no_buffers(allocations.len()),
        requests,
        arenas,
        arenas.len(),
    );
    assert(requests[request].1[place] < allocations.len());
}

proof fn lemma_placed(allocations: Seq<VulkanDistributedParameterAllocationModel>, index: int)
    requires
        0 <= index < allocations.len(),
    ensures
        allocation_places(allocations).contains_key(allocation_key(allocations[index])),
    decreases allocations.len(),
{
    let rest = allocations.drop_last();
    if index < rest.len() {
        lemma_placed(rest, index);
    }
}

proof fn lemma_no_repetition(
    allocations: Seq<VulkanDistributedParameterAllocationModel>,
    index: nat,
    bytes: usize,
    left: int,
    right: int,
)
    requires
        placing_fault_from(allocations, index, bytes) is None,
        0 <= left < right < allocations.len(),
        index <= right,
    ensures
        allocation_key(allocations[left]) != allocation_key(allocations[right]),
    decreases allocations.len() - index,
{
    if index == right {
        let earlier = allocations.take(right);
        assert(!repeats(allocations, right));
        assert(earlier[left] == allocations[left]);
        lemma_placed(earlier, left);
    } else {
        lemma_no_repetition(
            allocations,
            index + 1,
            (bytes + allocations[index as int].byte_count) as usize,
            left,
            right,
        );
    }
}

/// Allocations that can be placed are all different: no two hold the same bytes of a tensor
/// on one device.
pub proof fn law_placed_allocations_differ(
    allocations: Seq<VulkanDistributedParameterAllocationModel>,
    left: int,
    right: int,
)
    requires
        placing_fault_from(allocations, 0, 0) is None,
        0 <= left < right < allocations.len(),
    ensures
        allocations[left].device_id != allocations[right].device_id || allocations[left].tensor
            != allocations[right].tensor || allocations[left].byte_offset
            != allocations[right].byte_offset || allocations[left].byte_count
            != allocations[right].byte_count,
{
    lemma_no_repetition(allocations, 0, 0, left, right);
}

proof fn lemma_missing_group(
    allocations: Seq<VulkanDistributedParameterAllocationModel>,
    found: Seq<Option<VulkanArenaAllocation>>,
    device_id: Seq<char>,
)
    requires
        found.len() <= allocations.len() <= usize::MAX,
    ensures
        missing_groups(allocations, found).dom().finite(),
        forall|a: int|
            0 <= a < found.len() && allocations[a].device_id == device_id && (
            #[trigger] found[a]) is None ==> missing_groups(allocations, found).contains_key(
                device_id,
            ) && missing_groups(allocations, found)[device_id].contains(a as usize),
        missing_groups(allocations, found).contains_key(device_id) ==> are_missing(
            allocations,
            found,
            device_id,
            missing_groups(allocations, found)[device_id],
        ),
    decreases found.len(),
{
    if found.len() > 0 {
        let rest = found.drop_last();
        let last = found.len() - 1;
        lemma_missing_group(allocations, rest, device_id);
        let groups = missing_groups(allocations, rest);
        let all_groups = missing_groups(allocations, found);
        let earlier = if groups.contains_key(device_id) {
            groups[device_id]
        } else {
            Seq::empty()
        };
        let all = all_groups[device_id];
        assert forall|k: int| 0 <= k < earlier.len() implies #[trigger] earlier[k] < last
            && found[earlier[k] as int] is None && allocations[earlier[k] as int].device_id
            == device_id by {
            assert(rest[earlier[k] as int] == found[earlier[k] as int]);
        }
        if found[last] is None && allocations[last].device_id == device_id {
            assert(all == earlier.push(last as usize));
        } else if groups.contains_key(device_id) {
            assert(all == earlier);
        }
        assert forall|a: int|
            0 <= a < found.len() && allocations[a].device_id == device_id && (
            #[trigger] found[a]) is None implies all_groups.contains_key(device_id)
            && all.contains(a as usize) by {
            if a < last {
                assert(rest[a] == found[a]);
                assert(earlier.contains(a as usize));
                let k = choose|k: int| 0 <= k < earlier.len() && earlier[k] == a as usize;
                assert(all[k] == a as usize);
            } else {
                assert(all[all.len() - 1] == a as usize);
            }
        }
    }
}

/// The indices are of allocations of a device that were not found.
pub open spec fn are_missing(
    allocations: Seq<VulkanDistributedParameterAllocationModel>,
    found: Seq<Option<VulkanArenaAllocation>>,
    device_id: Seq<char>,
    indices: Seq<usize>,
) -> bool {
    &&& forall|k: int|
        0 <= k < indices.len() ==> #[trigger] indices[k] < found.len()
            && found[indices[k] as int] is None && allocations[indices[k] as int].device_id
            == device_id
    &&& forall|j: int, k: int|
        #![trigger indices[j], indices[k]]
        0 <= j < k < indices.len() ==> indices[j] < indices[k]
}

/// A pool is asked anew exactly for the allocations that it does not keep, each under its own
/// device; what it keeps is used where it stands.
pub proof fn law_pools_are_asked_for_what_is_missing(
    allocations: Seq<VulkanDistributedParameterAllocationModel>,
    found: Seq<Option<VulkanArenaAllocation>>,
)
    requires
        found.len() == allocations.len() <= usize::MAX,
    ensures
        ({
            let requests = pool_requests(allocations, found);
            &&& forall|r: int|
                0 <= r < requests.len() ==> are_missing(
                    allocations,
                    found,
                    (#[trigger] requests[r]).0,
                    requests[r].1,
                )
            &&& forall|a: int|
                0 <= a < found.len() && (#[trigger] found[a]) is None ==> is_named(
                    requests,
                    a as usize,
                )
            &&& forall|a: int|
                0 <= a < found.len() && (#[trigger] found[a]) is Some ==> found_slots(
                    allocations,
                    found,
                )[a] == Some(
                    VulkanDistributedParameterBufferAllocationModel {
                        allocation: allocations[a],
                        buffer: found[a]->0.buffer,
                        byte_offset: found[a]->0.byte_offset,
                    },
                )
        }),
{
    let groups = missing_groups(allocations, found);
    let requests = pool_requests(allocations, found);
    lemma_missing_group(allocations, found, Seq::empty());
    lemma_ordered_listing_exists::<String, Seq<usize>>(groups);
    assert forall|r: int| 0 <= r < requests.len() implies are_missing(
        allocations,
        found,
        (#[trigger] requests[r]).0,
        requests[r].1,
    ) by {
        lemma_listed_at::<String, Seq<usize>>(requests, r);
        lemma_missing_group(allocations, found, requests[r].0);
    }
    assert forall|a: int| 0 <= a < found.len() && (#[trigger] found[a]) is None implies is_named(
        requests,
        a as usize,
    ) by {
        let device_id = allocations[a].device_id;
        lemma_missing_group(allocations, found, device_id);
        assert(groups.contains_key(device_id));
        assert(lists_key(requests, device_id));
        let r = choose|r: int| 0 <= r < requests.len() && #[trigger] requests[r].0 == device_id;
        lemma_listed_at::<String, Seq<usize>>(requests, r);
        let indices = groups[device_id];
        let k = choose|k: int| 0 <= k < indices.len() && indices[k] == a as usize;
        assert(requests[r].1[k] == a as usize);
    }
}

/// A pool keeps an allocation under what it holds and where: two allocations have one key
/// exactly where they are of one device and the same bytes of one tensor.
pub proof fn law_pools_tell_allocations_apart(
    tensors: TensorIndexModel,
    left: VulkanDistributedParameterAllocationModel,
    right: VulkanDistributedParameterAllocationModel,
)
    requires
        pool_key(tensors, left) is Ok,
        pool_key(tensors, right) is Ok,
    ensures
        pool_key(tensors, left)->Ok_0 == pool_key(tensors, right)->Ok_0 <==> left.device_id
            == right.device_id && left.tensor == right.tensor && left.byte_offset
            == right.byte_offset && left.byte_count == right.byte_count,
        tensors.tensors.contains_key(left.tensor),
        tensors.tensors[left.tensor].content_identity == (TensorContentIdentityModel::Known {
            identity: pool_key(tensors, left)->Ok_0.content_identity,
        }),
{
}

/// What is published of an allocation is its key, with the buffer that holds it and as many
/// bytes as it has.
pub proof fn law_published_allocations_are_where_they_were_placed(
    tensors: TensorIndexModel,
    allocations: Seq<VulkanDistributedParameterAllocationModel>,
    buffers: Seq<VulkanDistributedParameterBufferAllocationModel>,
    indices: Seq<usize>,
    place: int,
)
    requires
        0 <= place < indices.len(),
        pool_key(tensors, allocations[indices[place] as int]) is Ok,
    ensures
        ({
            let published = publications(tensors, allocations, buffers, indices);
            let own = buffers[indices[place] as int];
            &&& published.len() == indices.len()
            &&& published[place].buffer == own.buffer
            &&& published[place].byte_offset == own.byte_offset
            &&& published[place].byte_count == own.allocation.byte_count
            &&& pool_key(tensors, allocations[indices[place] as int]) == Ok::<
                VulkanResidentBufferPoolKeyModel,
                Seq<char>,
            >(published[place].key)
        }),
{
}

} // verus!
