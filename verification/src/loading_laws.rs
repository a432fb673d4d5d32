//! What the schedules of loading parameters guarantee.
use vstd::prelude::*;

use crate::ordered::{
    keys_increase, lemma_listed_at, lemma_ordered_listing_exists, lists_key, ordered_listing,
};
use crate::parameter_buffers::{
    is_listed, is_served, law_schedules_serve_every_allocation, lemma_ranges_to_load,
    load_schedule, ranges_to_load, serves, VulkanDistributedRangeLoadModel,
    VulkanDistributedTensorLoadModel,
};
use crate::parameter_mounting::{
    arena_requests, belongs_to, device_groups, lemma_device_groups,
    lemma_requests_name_allocations,
};
use crate::parameter_plans::{
    VulkanDistributedParameterAllocationModel, VulkanDistributedParameterAllocationPlanModel,
};
use crate::values::OrderedKey;

verus! {

/// The schedule writes an allocation at a place of a range of a tensor.
pub open spec fn writes_at(
    loads: Seq<VulkanDistributedTensorLoadModel>,
    load: int,
    range: int,
    place: int,
    index: usize,
) -> bool {
    &&& 0 <= load < loads.len()
    &&& 0 <= range < loads[load].ranges.len()
    &&& 0 <= place < loads[load].ranges[range].allocation_indices.len()
    &&& loads[load].ranges[range].allocation_indices[place] == index
}

/// The extent of a range: where it starts, and its bytes.
pub open spec fn extent_of(load: VulkanDistributedRangeLoadModel) -> (usize, usize) {
    (load.range.byte_offset, load.range.byte_count)
}

/// The indices increase strictly.
pub open spec fn indices_increase(indices: Seq<usize>) -> bool {
    forall|i: int, j: int|
        #![trigger indices[i], indices[j]]
        0 <= i < j < indices.len() ==> indices[i] < indices[j]
}

proof fn lemma_listed_indices_increase(
    allocations: Seq<VulkanDistributedParameterAllocationModel>,
    tensor: Seq<char>,
    range: (usize, usize),
)
    requires
        allocations.len() <= usize::MAX,
        ranges_to_load(allocations).contains_key(tensor),
        ranges_to_load(allocations)[tensor].contains_key(range),
    ensures
        indices_increase(ranges_to_load(allocations)[tensor][range]),
    decreases allocations.len(),
{
    if allocations.len() > 0 {
        let rest = allocations.drop_last();
        let last = allocations.last();
        let before = ranges_to_load(rest);
        let indices = ranges_to_load(allocations)[tensor][range];
        lemma_ranges_to_load(rest);
        if before.contains_key(tensor) && before[tensor].contains_key(range) {
            lemma_listed_indices_increase(rest, tensor, range);
            let earlier = before[tensor][range];
            assert forall|k: int| 0 <= k < earlier.len() implies #[trigger] earlier[k]
                < rest.len() by {
                assert(is_listed(rest, tensor, range, before[tensor][range][k]));
            }
            if tensor == last.tensor && range == (last.byte_offset, last.byte_count) {
                assert(indices =~= earlier.push((allocations.len() - 1) as usize));
            } else {
                assert(indices == earlier);
            }
        } else {
            assert(indices.len() == 1);
        }
    }
}

/// Loading goes through the tensors in the order of their names, through the ranges of a
/// tensor in the order of their offsets and bytes, and through the allocations of a range
/// in the order of the plan.
pub proof fn law_loads_are_in_order(plan: VulkanDistributedParameterAllocationPlanModel)
    requires
        plan.allocations.len() <= usize::MAX,
    ensures
        forall|i: int, j: int|
            #![trigger load_schedule(plan.allocations)[i], load_schedule(plan.allocations)[j]]
            0 <= i < j < load_schedule(plan.allocations).len() ==> String::before(
                load_schedule(plan.allocations)[i].tensor,
                load_schedule(plan.allocations)[j].tensor,
            ),
        forall|load: int, i: int, j: int|
            #![trigger load_schedule(plan.allocations)[load].ranges[i], load_schedule(plan.allocations)[load].ranges[j]]
            0 <= load < load_schedule(plan.allocations).len() && 0 <= i < j < load_schedule(
                plan.allocations,
            )[load].ranges.len() ==> <(usize, usize)>::before(
                extent_of(load_schedule(plan.allocations)[load].ranges[i]),
                extent_of(load_schedule(plan.allocations)[load].ranges[j]),
            ),
        forall|load: int, range: int|
            #![trigger load_schedule(plan.allocations)[load].ranges[range]]
            0 <= load < load_schedule(plan.allocations).len() && 0 <= range < load_schedule(
                plan.allocations,
            )[load].ranges.len() ==> indices_increase(
                load_schedule(plan.allocations)[load].ranges[range].allocation_indices,
            ),
{
    let found = ranges_to_load(plan.allocations);
    let loads = load_schedule(plan.allocations);
    lemma_ranges_to_load(plan.allocations);
    lemma_ordered_listing_exists::<String, Map<(usize, usize), Seq<usize>>>(found);
    let listing = ordered_listing::<String, Map<(usize, usize), Seq<usize>>>(found);
    assert forall|i: int, j: int|
        #![trigger loads[i], loads[j]]
        0 <= i < j < loads.len() implies String::before(loads[i].tensor, loads[j].tensor) by {
        assert(String::before(listing[i].0, listing[j].0));
    }
    assert forall|load: int, i: int, j: int|
        #![trigger loads[load].ranges[i], loads[load].ranges[j]]
        0 <= load < loads.len() && 0 <= i < j < loads[load].ranges.len() implies <(
        usize,
        usize,
    )>::before(extent_of(loads[load].ranges[i]), extent_of(loads[load].ranges[j])) by {
        lemma_listed_at::<String, Map<(usize, usize), Seq<usize>>>(listing, load);
        let ranges = listing[load].1;
        lemma_ordered_listing_exists::<(usize, usize), Seq<usize>>(ranges);
        let inner = ordered_listing::<(usize, usize), Seq<usize>>(ranges);
        assert(<(usize, usize)>::before(inner[i].0, inner[j].0));
    }
    assert forall|load: int, range: int|
        #![trigger loads[load].ranges[range]]
        0 <= load < loads.len() && 0 <= range < loads[load].ranges.len() implies indices_increase(
        loads[load].ranges[range].allocation_indices,
    ) by {
        lemma_listed_at::<String, Map<(usize, usize), Seq<usize>>>(listing, load);
        let ranges = listing[load].1;
        lemma_ordered_listing_exists::<(usize, usize), Seq<usize>>(ranges);
        let inner = ordered_listing::<(usize, usize), Seq<usize>>(ranges);
        lemma_listed_at::<(usize, usize), Seq<usize>>(inner, range);
        lemma_listed_indices_increase(plan.allocations, listing[load].0, inner[range].0);
    }
}

/// Loading a plan writes every allocation once: it stands at one place of one range of one
/// tensor of the schedule.
pub proof fn law_each_allocation_is_written_once(
    plan: VulkanDistributedParameterAllocationPlanModel,
    index: usize,
)
    requires
        plan.allocations.len() <= usize::MAX,
        index < plan.allocations.len(),
    ensures
        exists|load: int, range: int, place: int| #[trigger]
            writes_at(load_schedule(plan.allocations), load, range, place, index),
        forall|load: int, range: int, place: int, load2: int, range2: int, place2: int| #[trigger]
            writes_at(load_schedule(plan.allocations), load, range, place, index) && #[trigger]
                writes_at(load_schedule(plan.allocations), load2, range2, place2, index) ==> load
                == load2 && range == range2 && place == place2,
{
    let allocations = plan.allocations;
    let loads = load_schedule(allocations);
    law_schedules_serve_every_allocation(plan);
    law_loads_are_in_order(plan);
    assert(is_served(loads, allocations[index as int], index as int as usize));
    let (load, range) = choose|load: int, range: int|
        0 <= load < loads.len() && #[trigger] serves(
            loads[load],
            range,
            allocations[index as int],
            index,
        );
    let indices = loads[load].ranges[range].allocation_indices;
    let place = choose|place: int| 0 <= place < indices.len() && indices[place] == index;
    assert(writes_at(loads, load, range, place, index));
    assert forall|load: int, range: int, place: int, load2: int, range2: int, place2: int|
        #[trigger]
        writes_at(loads, load, range, place, index) && #[trigger] writes_at(
            loads,
            load2,
            range2,
            place2,
            index,
        ) implies load == load2 && range == range2 && place == place2 by {
        assert(loads[load].ranges[range].allocation_indices[place] == index);
        assert(loads[load2].ranges[range2].allocation_indices[place2] == index);
        String::order_is_irreflexive(allocations[index as int].tensor);
        if load < load2 {
            assert(String::before(loads[load].tensor, loads[load2].tensor));
        } else if load2 < load {
            assert(String::before(loads[load2].tensor, loads[load].tensor));
        }
        let own = loads[load].ranges;
        <(usize, usize)>::order_is_irreflexive(extent_of(own[range]));
        assert(extent_of(own[range]) == extent_of(own[range2]));
        if range < range2 {
            assert(<(usize, usize)>::before(
                extent_of(loads[load].ranges[range]),
                extent_of(loads[load].ranges[range2]),
            ));
        } else if range2 < range {
            assert(<(usize, usize)>::before(
                extent_of(loads[load].ranges[range2]),
                extent_of(loads[load].ranges[range]),
            ));
        }
        let indices = loads[load].ranges[range].allocation_indices;
        assert(indices_increase(indices));
        assert(indices[place] == indices[place2]);
    }
}

/// Making a plan resident asks every device once, in the order of their names, for its own
/// allocations and for all of them.
pub proof fn law_each_device_is_asked_once(
    allocations: Seq<VulkanDistributedParameterAllocationModel>,
)
    requires
        allocations.len() <= usize::MAX,
    ensures
        keys_increase::<String, Seq<usize>>(arena_requests(allocations)),
        forall|g: int, k: int|
            #![trigger arena_requests(allocations)[g].1[k]]
            0 <= g < arena_requests(allocations).len() && 0 <= k < arena_requests(
                allocations,
            )[g].1.len() ==> belongs_to(
                allocations,
                arena_requests(allocations)[g].0,
                arena_requests(allocations)[g].1[k],
            ),
        forall|i: int|
            0 <= i < allocations.len() ==> is_asked_for(
                arena_requests(allocations),
                (#[trigger] allocations[i]).device_id,
                i as usize,
            ),
{
    let groups = device_groups(allocations);
    let requests = arena_requests(allocations);
    lemma_device_groups(allocations);
    lemma_requests_name_allocations(allocations);
    lemma_ordered_listing_exists::<String, Seq<usize>>(groups);
    assert forall|i: int| 0 <= i < allocations.len() implies is_asked_for(
        requests,
        (#[trigger] allocations[i]).device_id,
        i as usize,
    ) by {
        let device_id = allocations[i].device_id;
        assert(lists_key(requests, device_id));
        let g = choose|g: int| 0 <= g < requests.len() && #[trigger] requests[g].0 == device_id;
        lemma_listed_at::<String, Seq<usize>>(requests, g);
        assert(requests[g].1.contains(i as usize));
    }
}

/// A device is asked for an allocation.
pub open spec fn is_asked_for(
    requests: Seq<(Seq<char>, Seq<usize>)>,
    device_id: Seq<char>,
    index: usize,
) -> bool {
    exists|g: int|
        0 <= g < requests.len() && (#[trigger] requests[g]).0 == device_id
            && requests[g].1.contains(index)
}

} // verus!
