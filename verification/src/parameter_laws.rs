//! What merged parameter plans and covered tensors guarantee.
use vstd::prelude::*;

use crate::ordered::{
    lemma_listed_at, lemma_ordered_insert, lemma_ordered_listing_exists, lists_key, ordered_listing,
    ordered_members,
};
use crate::parameter_plans::{
    all_allocations, allocation_bytes, allocation_uses, end_of, invalid_range, joined,
    lemma_placed_values, lemma_valid_at, merge_step, merged_plan, place_of, placed, reaches,
    same_resource, sorted_allocations, tensor_fault, tiled_from, AllocationPlace,
    VulkanDistributedParameterAllocationModel, VulkanDistributedParameterAllocationPlanModel,
};
use crate::prepared::TensorIndexModel;
use crate::sequences::{fold_from, lemma_sum_insert, lemma_sum_step, sum_of};
use crate::values::OrderedKey;

verus! {

/// The allocation covers a byte of a tensor on a device.
pub open spec fn covers(
    allocation: VulkanDistributedParameterAllocationModel,
    device_id: Seq<char>,
    tensor: Seq<char>,
    byte: int,
) -> bool {
    allocation.device_id == device_id && allocation.tensor == tensor && allocation.byte_offset
        <= byte < end_of(allocation)
}

/// Some allocation covers a byte of a tensor on a device.
pub open spec fn covered(
    allocations: Seq<VulkanDistributedParameterAllocationModel>,
    device_id: Seq<char>,
    tensor: Seq<char>,
    byte: int,
) -> bool {
    exists|i: int|
        0 <= i < allocations.len() && covers(#[trigger] allocations[i], device_id, tensor, byte)
}

proof fn lemma_covered_push(
    allocations: Seq<VulkanDistributedParameterAllocationModel>,
    last: VulkanDistributedParameterAllocationModel,
    device_id: Seq<char>,
    tensor: Seq<char>,
    byte: int,
)
    ensures
        covered(allocations.push(last), device_id, tensor, byte) <==> covered(
            allocations,
            device_id,
            tensor,
            byte,
        ) || covers(last, device_id, tensor, byte),
{
    let grown = allocations.push(last);
    if covered(allocations, device_id, tensor, byte) {
        let i = choose|i: int|
            0 <= i < allocations.len()
                && covers(#[trigger] allocations[i], device_id, tensor, byte);
        assert(grown[i] == allocations[i]);
    }
    if covers(last, device_id, tensor, byte) {
        assert(grown[allocations.len() as int] == last);
    }
    if covered(grown, device_id, tensor, byte) {
        let i = choose|i: int|
            0 <= i < grown.len() && covers(#[trigger] grown[i], device_id, tensor, byte);
        if i < allocations.len() {
            assert(grown[i] == allocations[i]);
        }
    }
}

/// What merging from an index on keeps: the bytes, and the sum of the uses.
proof fn lemma_merge_keeps(
    sorted: Seq<VulkanDistributedParameterAllocationModel>,
    index: nat,
    merged: Seq<VulkanDistributedParameterAllocationModel>,
    device_id: Seq<char>,
    tensor: Seq<char>,
    byte: int,
)
    requires
        index <= sorted.len(),
        forall|i: int| 0 <= i < sorted.len() ==> !invalid_range((#[trigger] sorted[i])),
        forall|i: int| 0 <= i < merged.len() ==> !invalid_range((#[trigger] merged[i])),
        merged.len() > 0 && index < sorted.len() && same_resource(
            merged.last(),
            sorted[index as int],
        ) ==> merged.last().byte_offset <= sorted[index as int].byte_offset,
        forall|i: int|
            #![trigger sorted[i]]
            index <= i < sorted.len() - 1 && same_resource(sorted[i], sorted[i + 1])
                ==> sorted[i].byte_offset <= sorted[i + 1].byte_offset,
        fold_from(sorted, index, merged, merge_step()) is Ok,
    ensures
        ({
            let result = fold_from(sorted, index, merged, merge_step())->Ok_0;
            &&& covered(result, device_id, tensor, byte) <==> covered(
                merged,
                device_id,
                tensor,
                byte,
            ) || covered(sorted.skip(index as int), device_id, tensor, byte)
            &&& sum_of(result, allocation_uses()) == sum_of(merged, allocation_uses()) + sum_of(
                sorted,
                allocation_uses(),
            ) - sum_of(sorted.take(index as int), allocation_uses())
            &&& forall|i: int| 0 <= i < result.len() ==> !invalid_range((#[trigger] result[i]))
        }),
    decreases sorted.len() - index,
{
    let uses = allocation_uses();
    if index == sorted.len() {
        assert(sorted.take(index as int) =~= sorted);
        assert(sorted.skip(index as int).len() == 0);
    } else {
        let next = sorted[index as int];
        let rest = sorted.skip(index as int + 1);
        assert(sorted.skip(index as int) =~= seq![next] + rest);
        lemma_sum_step(sorted, uses, index as int);
        assert(covered(sorted.skip(index as int), device_id, tensor, byte) <==> covers(
            next,
            device_id,
            tensor,
            byte,
        ) || covered(rest, device_id, tensor, byte)) by {
            let whole = sorted.skip(index as int);
            if covers(next, device_id, tensor, byte) {
                assert(whole[0] == next);
            }
            if covered(rest, device_id, tensor, byte) {
                let i = choose|i: int|
                    0 <= i < rest.len() && covers(#[trigger] rest[i], device_id, tensor, byte);
                assert(whole[i + 1] == rest[i]);
            }
            if covered(whole, device_id, tensor, byte) {
                let i = choose|i: int|
                    0 <= i < whole.len() && covers(#[trigger] whole[i], device_id, tensor, byte);
                if i > 0 {
                    assert(rest[i - 1] == whole[i]);
                }
            }
        }
        if merged.len() > 0 && reaches(merged.last(), next) {
            let last = merged.last();
            let both = joined(last, next);
            let grown = merged.drop_last().push(both);
            assert(merged =~= merged.drop_last().push(last));
            lemma_covered_push(merged.drop_last(), last, device_id, tensor, byte);
            lemma_covered_push(merged.drop_last(), both, device_id, tensor, byte);
            assert(grown.drop_last() =~= merged.drop_last());
            assert(both.byte_count >= last.byte_count);
            assert forall|i: int| 0 <= i < grown.len() implies !invalid_range(
                (#[trigger] grown[i]),
            ) by {
                if i < merged.len() - 1 {
                    assert(grown[i] == merged[i]);
                }
            }
            lemma_merge_keeps(sorted, index + 1, grown, device_id, tensor, byte);
        } else {
            let grown = merged.push(next);
            lemma_covered_push(merged, next, device_id, tensor, byte);
            assert(grown.drop_last() =~= merged);
            assert forall|i: int| 0 <= i < grown.len() implies !invalid_range(
                (#[trigger] grown[i]),
            ) by {
                if i < merged.len() {
                    assert(grown[i] == merged[i]);
                }
            }
            lemma_merge_keeps(sorted, index + 1, grown, device_id, tensor, byte);
        }
    }
}

/// The resource of one allocation stands before that of another.
pub open spec fn resource_before(
    left: VulkanDistributedParameterAllocationModel,
    right: VulkanDistributedParameterAllocationModel,
) -> bool {
    <(String, String) as OrderedKey>::before(
        (left.device_id, left.tensor),
        (right.device_id, right.tensor),
    )
}

/// The allocations stand by resource, and by offset within a resource.
pub open spec fn stands_in_order(
    left: VulkanDistributedParameterAllocationModel,
    right: VulkanDistributedParameterAllocationModel,
) -> bool {
    resource_before(left, right) || (same_resource(left, right) && left.byte_offset
        <= right.byte_offset)
}

proof fn lemma_placed_finite(allocations: Seq<VulkanDistributedParameterAllocationModel>)
    ensures
        placed(allocations).dom().finite(),
    decreases allocations.len(),
{
    if allocations.len() > 0 {
        lemma_placed_finite(allocations.drop_last());
    }
}

/// The sorted allocations stand in order, are those that were given, and all of
/// them.
proof fn lemma_sorted(allocations: Seq<VulkanDistributedParameterAllocationModel>)
    requires
        allocations.len() <= usize::MAX,
    ensures
        forall|i: int, j: int|
            #![trigger sorted_allocations(allocations)[i], sorted_allocations(allocations)[j]]
            0 <= i < j < sorted_allocations(allocations).len() ==> stands_in_order(
                sorted_allocations(allocations)[i],
                sorted_allocations(allocations)[j],
            ),
        forall|i: int|
            0 <= i < sorted_allocations(allocations).len() ==> allocations.contains(
                #[trigger] sorted_allocations(allocations)[i],
            ),
        forall|i: int|
            0 <= i < allocations.len() ==> sorted_allocations(allocations).contains(
                #[trigger] allocations[i],
            ),
{
    let map = placed(allocations);
    let sorted = sorted_allocations(allocations);
    let listing = ordered_listing::<AllocationPlace, VulkanDistributedParameterAllocationModel>(map);
    lemma_placed_finite(allocations);
    lemma_ordered_listing_exists::<AllocationPlace, VulkanDistributedParameterAllocationModel>(map);
    lemma_placed_values(allocations);
    assert forall|i: int| 0 <= i < sorted.len() implies allocations.contains(#[trigger] sorted[i])
        && listing[i].0.0 == sorted[i].device_id && listing[i].0.1.0 == sorted[i].tensor
        && listing[i].0.1.1.0 == sorted[i].byte_offset by {
        lemma_listed_at::<AllocationPlace, VulkanDistributedParameterAllocationModel>(listing, i);
        let place = listing[i].0;
        assert(map.contains_key(place));
        assert(sorted[i] == allocations[place.1.1.1.1 as int]);
    }
    assert forall|i: int, j: int|
        #![trigger sorted[i], sorted[j]]
        0 <= i < j < sorted.len() implies stands_in_order(sorted[i], sorted[j]) by {
        assert(AllocationPlace::before(listing[i].0, listing[j].0));
        assert(allocations.contains(sorted[i]) && allocations.contains(sorted[j]));
    }
    assert forall|i: int| 0 <= i < allocations.len() implies sorted.contains(
        #[trigger] allocations[i],
    ) by {
        let place = place_of(allocations, i);
        assert(map.contains_key(place));
        assert(lists_key(listing, place));
        let k = choose|k: int| 0 <= k < listing.len() && #[trigger] listing[k].0 == place;
        lemma_listed_at::<AllocationPlace, VulkanDistributedParameterAllocationModel>(listing, k);
        assert(sorted[k] == allocations[i]);
    }
}

/// Sorting keeps the sum of a measure.
proof fn lemma_sorted_sum(
    allocations: Seq<VulkanDistributedParameterAllocationModel>,
    measure: spec_fn(VulkanDistributedParameterAllocationModel) -> nat,
)
    requires
        allocations.len() <= usize::MAX,
    ensures
        sum_of(sorted_allocations(allocations), measure) == sum_of(allocations, measure),
    decreases allocations.len(),
{
    let map = placed(allocations);
    lemma_placed_finite(allocations);
    lemma_ordered_listing_exists::<AllocationPlace, VulkanDistributedParameterAllocationModel>(map);
    if allocations.len() == 0 {
        let listing = ordered_listing::<
            AllocationPlace,
            VulkanDistributedParameterAllocationModel,
        >(map);
        if listing.len() > 0 {
            lemma_listed_at::<AllocationPlace, VulkanDistributedParameterAllocationModel>(
                listing,
                0,
            );
        }
        assert(sorted_allocations(allocations).len() == 0);
    } else {
        let rest = allocations.drop_last();
        let last = allocations.last();
        let place = place_of(allocations, allocations.len() - 1);
        lemma_sorted_sum(rest, measure);
        lemma_placed_values(rest);
        lemma_placed_finite(rest);
        lemma_ordered_listing_exists::<AllocationPlace, VulkanDistributedParameterAllocationModel>(
            placed(rest),
        );
        assert(!placed(rest).contains_key(place));
        let entry = lemma_ordered_insert::<
            AllocationPlace,
            VulkanDistributedParameterAllocationModel,
        >(placed(rest), place, last);
        assert(sorted_allocations(allocations) =~= sorted_allocations(rest).insert(entry, last));
        lemma_sum_insert(sorted_allocations(rest), entry, last, measure);
    }
}

/// Merging from an index on leaves a gap between any two ranges of a resource.
proof fn lemma_merge_separates(
    sorted: Seq<VulkanDistributedParameterAllocationModel>,
    index: nat,
    merged: Seq<VulkanDistributedParameterAllocationModel>,
)
    requires
        index <= sorted.len(),
        forall|i: int| 0 <= i < sorted.len() ==> !invalid_range((#[trigger] sorted[i])),
        forall|i: int| 0 <= i < merged.len() ==> !invalid_range((#[trigger] merged[i])),
        forall|i: int, j: int|
            #![trigger sorted[i], sorted[j]]
            0 <= i < j < sorted.len() ==> stands_in_order(sorted[i], sorted[j]),
        forall|i: int, j: int|
            #![trigger merged[i], merged[j]]
            0 <= i < j < merged.len() ==> separated(merged[i], merged[j]),
        forall|j: int|
            index <= j < sorted.len() && merged.len() > 0 ==> stands_in_order(
                merged.last(),
                #[trigger] sorted[j],
            ),
        fold_from(sorted, index, merged, merge_step()) is Ok,
    ensures
        ({
            let result = fold_from(sorted, index, merged, merge_step())->Ok_0;
            forall|i: int, j: int|
                #![trigger result[i], result[j]]
                0 <= i < j < result.len() ==> separated(result[i], result[j])
        }),
    decreases sorted.len() - index,
{
    if index < sorted.len() {
        let next = sorted[index as int];
        if merged.len() > 0 && reaches(merged.last(), next) {
            let last = merged.last();
            let both = joined(last, next);
            let grown = merged.drop_last().push(both);
            assert forall|i: int, j: int|
                #![trigger grown[i], grown[j]]
                0 <= i < j < grown.len() implies separated(grown[i], grown[j]) by {
                assert(grown[i] == merged[i]);
                assert(separated(merged[i], merged[j]));
            }
            assert forall|i: int| 0 <= i < grown.len() implies !invalid_range(
                (#[trigger] grown[i]),
            ) by {
                if i < merged.len() - 1 {
                    assert(grown[i] == merged[i]);
                }
            }
            assert forall|j: int| index + 1 <= j < sorted.len() implies stands_in_order(
                grown.last(),
                #[trigger] sorted[j],
            ) by {
                assert(stands_in_order(merged.last(), sorted[j]));
            }
            lemma_merge_separates(sorted, index + 1, grown);
        } else {
            let grown = merged.push(next);
            assert forall|i: int, j: int|
                #![trigger grown[i], grown[j]]
                0 <= i < j < grown.len() implies separated(grown[i], grown[j]) by {
                assert(grown[i] == merged[i]);
                if j < merged.len() {
                    assert(grown[j] == merged[j]);
                } else {
                    let last = merged.last();
                    assert(stands_in_order(last, sorted[index as int]));
                    if i < merged.len() - 1 {
                        assert(separated(merged[i], merged[merged.len() - 1]));
                        if resource_before(merged[i], last) && resource_before(last, next) {
                            <(String, String) as OrderedKey>::order_is_transitive(
                                (merged[i].device_id, merged[i].tensor),
                                (last.device_id, last.tensor),
                                (next.device_id, next.tensor),
                            );
                        }
                    }
                }
            }
            assert forall|i: int| 0 <= i < grown.len() implies !invalid_range(
                (#[trigger] grown[i]),
            ) by {
                if i < merged.len() {
                    assert(grown[i] == merged[i]);
                }
            }
            assert forall|j: int| index + 1 <= j < sorted.len() implies stands_in_order(
                grown.last(),
                #[trigger] sorted[j],
            ) by {
                assert(stands_in_order(sorted[index as int], sorted[j]));
            }
            lemma_merge_separates(sorted, index + 1, grown);
        }
    }
}

/// Two allocations belong to resources in order, or leave a gap between them.
pub open spec fn separated(
    left: VulkanDistributedParameterAllocationModel,
    right: VulkanDistributedParameterAllocationModel,
) -> bool {
    resource_before(left, right) || (same_resource(left, right) && end_of(left)
        < right.byte_offset)
}

/// One allocation holds all bytes of another.
pub open spec fn contains_allocation(
    holder: VulkanDistributedParameterAllocationModel,
    held: VulkanDistributedParameterAllocationModel,
) -> bool {
    same_resource(holder, held) && holder.byte_offset <= held.byte_offset && end_of(held) <= end_of(
        holder,
    )
}

/// Some allocation holds all bytes of another.
pub open spec fn held_by(
    allocations: Seq<VulkanDistributedParameterAllocationModel>,
    held: VulkanDistributedParameterAllocationModel,
) -> bool {
    exists|i: int| 0 <= i < allocations.len() && contains_allocation(#[trigger] allocations[i], held)
}

/// Merging from an index on keeps what was held, and holds what it merges.
proof fn lemma_merge_holds(
    sorted: Seq<VulkanDistributedParameterAllocationModel>,
    index: nat,
    merged: Seq<VulkanDistributedParameterAllocationModel>,
    held: VulkanDistributedParameterAllocationModel,
)
    requires
        index <= sorted.len(),
        forall|i: int| 0 <= i < sorted.len() ==> !invalid_range((#[trigger] sorted[i])),
        forall|i: int| 0 <= i < merged.len() ==> !invalid_range((#[trigger] merged[i])),
        forall|i: int, j: int|
            #![trigger sorted[i], sorted[j]]
            0 <= i < j < sorted.len() ==> stands_in_order(sorted[i], sorted[j]),
        forall|j: int|
            index <= j < sorted.len() && merged.len() > 0 ==> stands_in_order(
                merged.last(),
                #[trigger] sorted[j],
            ),
        held_by(merged, held) || sorted.skip(index as int).contains(held),
        fold_from(sorted, index, merged, merge_step()) is Ok,
    ensures
        held_by(fold_from(sorted, index, merged, merge_step())->Ok_0, held),
    decreases sorted.len() - index,
{
    if index < sorted.len() {
        let next = sorted[index as int];
        let rest = sorted.skip(index as int + 1);
        if sorted.skip(index as int).contains(held) && held != next {
            let k = choose|k: int|
                0 <= k < sorted.skip(index as int).len() && sorted.skip(index as int)[k] == held;
            assert(rest[k - 1] == held);
        }
        let reached = merged.len() > 0 && reaches(merged.last(), next);
        let grown = if reached {
            merged.drop_last().push(joined(merged.last(), next))
        } else {
            merged.push(next)
        };
        if reached {
            assert(stands_in_order(merged.last(), sorted[index as int]));
            <(String, String) as OrderedKey>::order_is_irreflexive((next.device_id, next.tensor));
            assert(merged.last().byte_offset <= next.byte_offset);
        }
        let last_place = grown.len() - 1;
        if held_by(merged, held) {
            let k = choose|k: int|
                0 <= k < merged.len() && contains_allocation(#[trigger] merged[k], held);
            if k < last_place {
                assert(grown[k] == merged[k]);
            }
            assert(contains_allocation(grown[k], held));
        } else if held == next {
            assert(contains_allocation(grown[last_place], held));
        }
        assert forall|i: int| 0 <= i < grown.len() implies !invalid_range(
            (#[trigger] grown[i]),
        ) by {
            if i < last_place {
                assert(grown[i] == merged[i]);
            }
        }
        assert forall|j: int| index + 1 <= j < sorted.len() implies stands_in_order(
            grown.last(),
            #[trigger] sorted[j],
        ) by {
            assert(stands_in_order(sorted[index as int], sorted[j]));
            if reached {
                assert(stands_in_order(merged.last(), sorted[j]));
            }
        }
        lemma_merge_holds(sorted, index + 1, grown, held);
    } else {
        assert(sorted.skip(index as int).len() == 0);
    }
}

proof fn lemma_merge_facts(plans: Seq<VulkanDistributedParameterAllocationPlanModel>)
    requires
        merged_plan(plans) is Ok,
        all_allocations(plans).len() <= usize::MAX,
    ensures
        ({
            let allocations = all_allocations(plans);
            let sorted = sorted_allocations(allocations);
            &&& forall|i: int| 0 <= i < allocations.len() ==> !invalid_range(
                (#[trigger] allocations[i]),
            )
            &&& forall|i: int| 0 <= i < sorted.len() ==> !invalid_range((#[trigger] sorted[i]))
            &&& fold_from(sorted, 0, Seq::empty(), merge_step()) == Ok::<
                Seq<VulkanDistributedParameterAllocationModel>,
                Seq<char>,
            >(merged_plan(plans)->Ok_0.allocations)
        }),
{
    let allocations = all_allocations(plans);
    let sorted = sorted_allocations(allocations);
    assert forall|i: int| 0 <= i < allocations.len() implies !invalid_range(
        (#[trigger] allocations[i]),
    ) by {
        lemma_valid_at(allocations, 0, i);
    }
    lemma_sorted(allocations);
    assert forall|i: int| 0 <= i < sorted.len() implies !invalid_range((#[trigger] sorted[i])) by {
        assert(allocations.contains(sorted[i]));
        let k = choose|k: int| 0 <= k < allocations.len() && allocations[k] == sorted[i];
        assert(!invalid_range(allocations[k]));
    }
}

/// A merged plan covers a byte of a tensor on a device exactly where one of the
/// plans covers it.
pub proof fn law_merging_keeps_the_covered_bytes(
    plans: Seq<VulkanDistributedParameterAllocationPlanModel>,
    device_id: Seq<char>,
    tensor: Seq<char>,
    byte: int,
)
    requires
        merged_plan(plans) is Ok,
        all_allocations(plans).len() <= usize::MAX,
    ensures
        covered(merged_plan(plans)->Ok_0.allocations, device_id, tensor, byte) <==> covered(
            all_allocations(plans),
            device_id,
            tensor,
            byte,
        ),
{
    let allocations = all_allocations(plans);
    let sorted = sorted_allocations(allocations);
    lemma_merge_facts(plans);
    lemma_sorted(allocations);
    let none = Seq::<VulkanDistributedParameterAllocationModel>::empty();
    assert forall|i: int|
        #![trigger sorted[i]]
        0 <= i < sorted.len() - 1 && same_resource(
            sorted[i],
            sorted[i + 1],
        ) implies sorted[i].byte_offset <= sorted[i + 1].byte_offset by {
        assert(stands_in_order(sorted[i], sorted[i + 1]));
        <(String, String) as OrderedKey>::order_is_irreflexive(
            (sorted[i].device_id, sorted[i].tensor),
        );
    }
    lemma_merge_keeps(sorted, 0, none, device_id, tensor, byte);
    assert(sorted.skip(0) =~= sorted);
    assert(!covered(none, device_id, tensor, byte));
    if covered(sorted, device_id, tensor, byte) {
        let i = choose|i: int|
            0 <= i < sorted.len() && covers(#[trigger] sorted[i], device_id, tensor, byte);
        assert(allocations.contains(sorted[i]));
        let k = choose|k: int| 0 <= k < allocations.len() && allocations[k] == sorted[i];
        assert(covers(allocations[k], device_id, tensor, byte));
    }
    if covered(allocations, device_id, tensor, byte) {
        let i = choose|i: int|
            0 <= i < allocations.len()
                && covers(#[trigger] allocations[i], device_id, tensor, byte);
        assert(sorted.contains(allocations[i]));
        let k = choose|k: int| 0 <= k < sorted.len() && sorted[k] == allocations[i];
        assert(covers(sorted[k], device_id, tensor, byte));
    }
}

/// The uses of a merged plan are the uses of the plans together.
pub proof fn law_merging_keeps_the_uses(plans: Seq<VulkanDistributedParameterAllocationPlanModel>)
    requires
        merged_plan(plans) is Ok,
        all_allocations(plans).len() <= usize::MAX,
    ensures
        sum_of(merged_plan(plans)->Ok_0.allocations, allocation_uses()) == sum_of(
            all_allocations(plans),
            allocation_uses(),
        ),
{
    let allocations = all_allocations(plans);
    let sorted = sorted_allocations(allocations);
    lemma_merge_facts(plans);
    lemma_sorted(allocations);
    let none = Seq::<VulkanDistributedParameterAllocationModel>::empty();
    assert forall|i: int|
        #![trigger sorted[i]]
        0 <= i < sorted.len() - 1 && same_resource(
            sorted[i],
            sorted[i + 1],
        ) implies sorted[i].byte_offset <= sorted[i + 1].byte_offset by {
        assert(stands_in_order(sorted[i], sorted[i + 1]));
        <(String, String) as OrderedKey>::order_is_irreflexive(
            (sorted[i].device_id, sorted[i].tensor),
        );
    }
    lemma_merge_keeps(sorted, 0, none, Seq::empty(), Seq::empty(), 0);
    assert(sorted.take(0) =~= none);
    lemma_sorted_sum(allocations, allocation_uses());
}

/// In a merged plan the allocations stand by device and tensor, and a gap lies
/// between any two ranges of one tensor on one device.
pub proof fn law_merged_ranges_are_separate(
    plans: Seq<VulkanDistributedParameterAllocationPlanModel>,
    left: int,
    right: int,
)
    requires
        merged_plan(plans) is Ok,
        all_allocations(plans).len() <= usize::MAX,
        0 <= left < right < merged_plan(plans)->Ok_0.allocations.len(),
    ensures
        separated(
            merged_plan(plans)->Ok_0.allocations[left],
            merged_plan(plans)->Ok_0.allocations[right],
        ),
{
    let allocations = all_allocations(plans);
    lemma_merge_facts(plans);
    lemma_sorted(allocations);
    lemma_merge_separates(sorted_allocations(allocations), 0, Seq::empty());
}

/// Every allocation of a plan lies within one allocation of the merged plan.
pub proof fn law_merged_plan_holds_every_allocation(
    plans: Seq<VulkanDistributedParameterAllocationPlanModel>,
    index: int,
)
    requires
        merged_plan(plans) is Ok,
        all_allocations(plans).len() <= usize::MAX,
        0 <= index < all_allocations(plans).len(),
    ensures
        held_by(merged_plan(plans)->Ok_0.allocations, all_allocations(plans)[index]),
{
    let allocations = all_allocations(plans);
    let sorted = sorted_allocations(allocations);
    lemma_merge_facts(plans);
    lemma_sorted(allocations);
    assert(sorted.contains(allocations[index]));
    assert(sorted.skip(0) =~= sorted);
    lemma_merge_holds(sorted, 0, Seq::empty(), allocations[index]);
}

/// The number of bytes of a merged plan is the sum over its allocations.
pub proof fn law_merged_bytes_are_the_sum(plans: Seq<VulkanDistributedParameterAllocationPlanModel>)
    requires
        merged_plan(plans) is Ok,
    ensures
        merged_plan(plans)->Ok_0.total_byte_capacity == sum_of(
            merged_plan(plans)->Ok_0.allocations,
            allocation_bytes(),
        ),
{
}

/// The range holds a byte.
pub open spec fn range_holds(range: (usize, usize), byte: int) -> bool {
    range.0 <= byte < range.0 + range.1
}

/// Ranges that follow each other hold every byte up to their end once.
proof fn lemma_tiling(
    tensor: Seq<char>,
    ranges: Seq<(usize, usize)>,
    index: nat,
    offset: usize,
    byte: int,
)
    requires
        index <= ranges.len(),
        tiled_from(tensor, ranges, index, offset) is Ok,
    ensures
        tiled_from(tensor, ranges, index, offset)->Ok_0 >= offset,
        forall|i: int| index <= i < ranges.len() ==> (#[trigger] ranges[i]).0 >= offset,
        offset <= byte < tiled_from(tensor, ranges, index, offset)->Ok_0 ==> exists|i: int|
            index <= i < ranges.len() && range_holds(#[trigger] ranges[i], byte),
        forall|i: int, j: int|
            #![trigger ranges[i], ranges[j]]
            index <= i < j < ranges.len() ==> ranges[i].0 + ranges[i].1 <= ranges[j].0,
        forall|i: int|
            index <= i < ranges.len() ==> (#[trigger] ranges[i]).0 + ranges[i].1 <= tiled_from(
                tensor,
                ranges,
                index,
                offset,
            )->Ok_0,
    decreases ranges.len() - index,
{
    if index < ranges.len() {
        let next = (offset + ranges[index as int].1) as usize;
        lemma_tiling(tensor, ranges, index + 1, next, byte);
        if offset <= byte < next {
            assert(range_holds(ranges[index as int], byte));
        }
    }
}

/// The ranges of a tensor whose coverage is accepted hold each of its bytes exactly
/// once, and no others.
pub proof fn law_accepted_ranges_hold_every_byte_once(
    tensors: TensorIndexModel,
    tensor: Seq<char>,
    ranges: Set<(usize, usize)>,
    byte: int,
)
    requires
        ranges.finite(),
        tensor_fault(tensors, tensor, ranges) is None,
    ensures
        tensors.tensors.contains_key(tensor),
        tensors.tensors[tensor].byte_count is Some,
        0 <= byte < tensors.tensors[tensor].byte_count->0 <==> exists|range: (usize, usize)|
            ranges.contains(range) && #[trigger] range_holds(range, byte),
        forall|left: (usize, usize), right: (usize, usize)|
            ranges.contains(left) && ranges.contains(right) && #[trigger] range_holds(left, byte)
                && #[trigger] range_holds(right, byte) ==> left == right,
{
    let members = ordered_members::<(usize, usize)>(ranges);
    let map = crate::ordered::membership(ranges);
    let listing = ordered_listing::<(usize, usize), ()>(map);
    assert(map.dom() =~= ranges);
    lemma_ordered_listing_exists::<(usize, usize), ()>(map);
    lemma_tiling(tensor, members, 0, 0, byte);
    assert forall|range: (usize, usize)| ranges.contains(range) <==> members.contains(range) by {
        if ranges.contains(range) {
            assert(lists_key(listing, range));
            let k = choose|k: int| 0 <= k < listing.len() && #[trigger] listing[k].0 == range;
            assert(members[k] == range);
        }
        if members.contains(range) {
            let k = choose|k: int| 0 <= k < members.len() && members[k] == range;
            lemma_listed_at::<(usize, usize), ()>(listing, k);
        }
    }
    if 0 <= byte < tensors.tensors[tensor].byte_count->0 {
        let i = choose|i: int|
            0 <= i < members.len() && range_holds(#[trigger] members[i], byte);
        assert(members.contains(members[i]));
        assert(ranges.contains(members[i]) && range_holds(members[i], byte));
    }
    assert forall|range: (usize, usize)|
        ranges.contains(range) && #[trigger] range_holds(range, byte) implies 0 <= byte
        < tensors.tensors[tensor].byte_count->0 by {
        assert(members.contains(range));
        let k = choose|k: int| 0 <= k < members.len() && members[k] == range;
        assert(members[k].0 + members[k].1 <= tensors.tensors[tensor].byte_count->0);
    }
    assert forall|left: (usize, usize), right: (usize, usize)|
        ranges.contains(left) && ranges.contains(right) && #[trigger] range_holds(left, byte)
            && #[trigger] range_holds(right, byte) implies left == right by {
        assert(members.contains(left) && members.contains(right));
        let i = choose|i: int| 0 <= i < members.len() && members[i] == left;
        let j = choose|j: int| 0 <= j < members.len() && members[j] == right;
        if i < j {
            assert(members[i].0 + members[i].1 <= members[j].0);
        } else if j < i {
            assert(members[j].0 + members[j].1 <= members[i].0);
        }
    }
}

} // verus!
