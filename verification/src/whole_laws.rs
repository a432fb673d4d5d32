//! Laws of one shard for all shards of a dispatch.
use vstd::prelude::*;

use crate::dispatch_shards::{
    VulkanDistributedActivationRange, VulkanDistributedDispatchShardModel,
    VulkanDistributedParameterFragmentModel,
};
use crate::execution_plans::VulkanDistributedDispatchPlanModel;
use crate::ordered::{
    lemma_listed_at, lemma_ordered_listing_exists, lists_key, ordered_listing,
};
use crate::plan_sampling::{
    all_fragments, auxiliary_ranges_of, contiguous_end_from, input_ranges_of,
    merged_auxiliary_from, merged_fragment_step, merged_range, merged_shard, shard_output_bytes,
    shard_rows, shard_workgroups,
};
use crate::sequences::{fold_from, sum_of};

verus! {

/// The range is the whole of ranges: the common one where they are alike, else from the start
/// of the first to the end of the last, each starting where the one before ends.
pub open spec fn is_whole_range(
    ranges: Seq<VulkanDistributedActivationRange>,
    whole: VulkanDistributedActivationRange,
) -> bool {
    &&& ranges.len() > 0
    &&& {
        ||| forall|i: int| 0 <= i < ranges.len() ==> #[trigger] ranges[i] == whole
        ||| {
            &&& whole.byte_offset == ranges.first().byte_offset
            &&& whole.byte_offset + whole.byte_count == ranges.last().byte_offset
                + ranges.last().byte_count
            &&& forall|i: int|
                1 <= i < ranges.len() ==> (#[trigger] ranges[i]).byte_offset == ranges[i
                    - 1].byte_offset + ranges[i - 1].byte_count
        }
    }
}

proof fn lemma_contiguous(
    dispatch: VulkanDistributedDispatchPlanModel,
    ranges: Seq<VulkanDistributedActivationRange>,
    label: Seq<char>,
    index: nat,
    end: usize,
)
    requires
        1 <= index <= ranges.len(),
        end == ranges[index - 1].byte_offset + ranges[index - 1].byte_count,
        contiguous_end_from(dispatch, ranges, label, index, end) is Ok,
    ensures
        contiguous_end_from(dispatch, ranges, label, index, end)->Ok_0
            == ranges.last().byte_offset + ranges.last().byte_count,
        contiguous_end_from(dispatch, ranges, label, index, end)->Ok_0 >= end,
        forall|i: int|
            index <= i < ranges.len() ==> (#[trigger] ranges[i]).byte_offset == ranges[i
                - 1].byte_offset + ranges[i - 1].byte_count,
    decreases ranges.len() - index,
{
    if index < ranges.len() {
        let next = (end + ranges[index as int].byte_count) as usize;
        lemma_contiguous(dispatch, ranges, label, index + 1, next);
    }
}

proof fn lemma_whole_range(
    dispatch: VulkanDistributedDispatchPlanModel,
    ranges: Seq<VulkanDistributedActivationRange>,
    label: Seq<char>,
)
    requires
        merged_range(dispatch, ranges, label) is Ok,
    ensures
        is_whole_range(ranges, merged_range(dispatch, ranges, label)->Ok_0),
{
    if !(forall|i: int| 0 <= i < ranges.len() ==> #[trigger] ranges[i] == ranges[0]) {
        lemma_contiguous(
            dispatch,
            ranges,
            label,
            1,
            (ranges[0].byte_offset + ranges[0].byte_count) as usize,
        );
    }
}

proof fn lemma_whole_auxiliary(
    dispatch: VulkanDistributedDispatchPlanModel,
    count: nat,
    index: nat,
    found: Seq<VulkanDistributedActivationRange>,
)
    requires
        found.len() == index,
        index <= count,
        forall|i: int|
            0 <= i < index ==> is_whole_range(
                auxiliary_ranges_of(dispatch.shards, i),
                #[trigger] found[i],
            ),
        merged_auxiliary_from(dispatch, count, index, found) is Ok,
    ensures
        ({
            let all = merged_auxiliary_from(dispatch, count, index, found)->Ok_0;
            &&& all.len() == count
            &&& forall|i: int|
                0 <= i < count ==> is_whole_range(
                    auxiliary_ranges_of(dispatch.shards, i),
                    #[trigger] all[i],
                )
        }),
    decreases count - index,
{
    if index < count {
        let ranges = auxiliary_ranges_of(dispatch.shards, index as int);
        lemma_whole_range(dispatch, ranges, "auxiliary input"@);
        let range = merged_range(dispatch, ranges, "auxiliary input"@)->Ok_0;
        lemma_whole_auxiliary(dispatch, count, index + 1, found.push(range));
    }
}

/// Shards follow each other row by row.
pub open spec fn rows_follow(shards: Seq<VulkanDistributedDispatchShardModel>) -> bool {
    forall|i: int|
        1 <= i < shards.len() ==> (#[trigger] shards[i]).row_start == shards[i - 1].row_start
            + shards[i - 1].row_count
}

/// Shards write one behind another.
pub open spec fn outputs_follow(shards: Seq<VulkanDistributedDispatchShardModel>) -> bool {
    forall|i: int|
        1 <= i < shards.len() ==> (#[trigger] shards[i]).output_byte_offset == shards[i
            - 1].output_byte_offset + shards[i - 1].output_byte_count
}

/// The workgroups of shards are in one proportion to their rows.
pub open spec fn workgroups_are_as(
    shards: Seq<VulkanDistributedDispatchShardModel>,
    rows: int,
    workgroups: int,
) -> bool {
    forall|i: int|
        0 <= i < shards.len() ==> (#[trigger] shards[i]).workgroup_count_x * rows
            == shards[i].row_count * workgroups
}

proof fn lemma_rows_add_up(shards: Seq<VulkanDistributedDispatchShardModel>)
    requires
        shards.len() > 0,
    ensures
        rows_follow(shards) ==> shards.first().row_start + sum_of(shards, shard_rows())
            == shards.last().row_start + shards.last().row_count,
        outputs_follow(shards) ==> shards.first().output_byte_offset + sum_of(
            shards,
            shard_output_bytes(),
        ) == shards.last().output_byte_offset + shards.last().output_byte_count,
    decreases shards.len(),
{
    let rest = shards.drop_last();
    if rest.len() > 0 {
        lemma_rows_add_up(rest);
        let last = shards.len() - 1;
        assert(rest.first() == shards.first());
        assert(rest.last() == shards[last - 1]);
        if rows_follow(shards) {
            assert forall|i: int| 1 <= i < rest.len() implies (#[trigger] rest[i]).row_start
                == rest[i - 1].row_start + rest[i - 1].row_count by {
                assert(shards[i].row_start == shards[i - 1].row_start + shards[i - 1].row_count);
            }
            assert(shards[last].row_start == shards[last - 1].row_start + shards[last
                - 1].row_count);
        }
        if outputs_follow(shards) {
            assert forall|i: int| 1 <= i < rest.len() implies (
            #[trigger] rest[i]).output_byte_offset == rest[i - 1].output_byte_offset + rest[i
                - 1].output_byte_count by {
                assert(shards[i].output_byte_offset == shards[i - 1].output_byte_offset + shards[i
                    - 1].output_byte_count);
            }
            assert(shards[last].output_byte_offset == shards[last - 1].output_byte_offset
                + shards[last - 1].output_byte_count);
        }
    } else {
        assert(sum_of(rest, shard_rows()) == 0);
        assert(sum_of(rest, shard_output_bytes()) == 0);
    }
}

proof fn lemma_workgroups_add_up(
    shards: Seq<VulkanDistributedDispatchShardModel>,
    rows: int,
    workgroups: int,
)
    requires
        workgroups_are_as(shards, rows, workgroups),
    ensures
        sum_of(shards, shard_workgroups()) * rows == sum_of(shards, shard_rows()) * workgroups,
    decreases shards.len(),
{
    if shards.len() > 0 {
        let rest = shards.drop_last();
        let last = shards.last();
        assert forall|i: int| 0 <= i < rest.len() implies (
        #[trigger] rest[i]).workgroup_count_x * rows == rest[i].row_count * workgroups by {
            assert(shards[i].workgroup_count_x * rows == shards[i].row_count * workgroups);
        }
        lemma_workgroups_add_up(rest, rows, workgroups);
        assert(shards[shards.len() - 1].workgroup_count_x * rows == shards[shards.len()
            - 1].row_count * workgroups);
        let some = sum_of(rest, shard_workgroups()) as int;
        let some_rows = sum_of(rest, shard_rows()) as int;
        let own = last.workgroup_count_x as int;
        let own_rows = last.row_count as int;
        assert((some + own) * rows == (some_rows + own_rows) * workgroups) by (nonlinear_arith)
            requires
                some * rows == some_rows * workgroups,
                own * rows == own_rows * workgroups,
        ;
        assert(sum_of(shards, shard_workgroups()) as int == some + own);
        assert(sum_of(shards, shard_rows()) as int == some_rows + own_rows);
    } else {
        assert(0 * rows == 0 * workgroups) by (nonlinear_arith);
    }
}

/// The bytes of the first fragments of a tensor at a binding.
pub open spec fn bytes_at(
    fragments: Seq<VulkanDistributedParameterFragmentModel>,
    count: int,
    binding: usize,
    tensor: Seq<char>,
) -> nat
    decreases count,
{
    if count <= 0 {
        0
    } else {
        bytes_at(fragments, count - 1, binding, tensor) + if fragments[count - 1].binding
            == binding && fragments[count - 1].tensor == tensor {
            fragments[count - 1].byte_count as nat
        } else {
            0
        }
    }
}

/// One fragment lies within another of the same tensor and binding.
pub open spec fn lies_within(
    part: VulkanDistributedParameterFragmentModel,
    whole: VulkanDistributedParameterFragmentModel,
) -> bool {
    &&& whole.binding == part.binding
    &&& whole.tensor == part.tensor
    &&& whole.byte_offset <= part.byte_offset
    &&& part.byte_offset + part.byte_count <= whole.byte_offset + whole.byte_count
}

/// The map has the joined fragments of the first ones of a list.
pub open spec fn are_joined(
    fragments: Seq<VulkanDistributedParameterFragmentModel>,
    count: int,
    found: Map<(usize, Seq<char>), VulkanDistributedParameterFragmentModel>,
) -> bool {
    &&& found.dom().finite()
    &&& forall|key: (usize, Seq<char>)| #[trigger]
        found.contains_key(key) ==> found[key].binding == key.0 && found[key].tensor == key.1
            && found[key].byte_count == bytes_at(fragments, count, key.0, key.1)
    &&& forall|f: int|
        0 <= f < count ==> found.contains_key(
            ((#[trigger] fragments[f]).binding, fragments[f].tensor),
        ) && lies_within(fragments[f], found[(fragments[f].binding, fragments[f].tensor)])
    &&& forall|binding: usize, tensor: Seq<char>|
        !found.contains_key((binding, tensor)) ==> #[trigger] bytes_at(
            fragments,
            count,
            binding,
            tensor,
        ) == 0
}

proof fn lemma_joined(
    fragments: Seq<VulkanDistributedParameterFragmentModel>,
    index: nat,
    found: Map<(usize, Seq<char>), VulkanDistributedParameterFragmentModel>,
)
    requires
        index <= fragments.len(),
        are_joined(fragments, index as int, found),
        fold_from(fragments, index, found, merged_fragment_step()) is Ok,
    ensures
        are_joined(
            fragments,
            fragments.len() as int,
            fold_from(fragments, index, found, merged_fragment_step())->Ok_0,
        ),
    decreases fragments.len() - index,
{
    if index < fragments.len() {
        let fragment = fragments[index as int];
        let key = (fragment.binding, fragment.tensor);
        let next = merged_fragment_step()(found, fragment)->Ok_0;
        assert(bytes_at(fragments, index as int, fragment.binding, fragment.tensor) == if found.contains_key(key) {
            found[key].byte_count as nat
        } else {
            0
        });
        assert forall|f: int| 0 <= f < index + 1 implies next.contains_key(
            ((#[trigger] fragments[f]).binding, fragments[f].tensor),
        ) && lies_within(fragments[f], next[(fragments[f].binding, fragments[f].tensor)]) by {
            if f < index {
                assert(found.contains_key((fragments[f].binding, fragments[f].tensor)));
            }
        }
        assert forall|other: (usize, Seq<char>)| #[trigger]
            next.contains_key(other) implies next[other].binding == other.0 && next[other].tensor
            == other.1 && next[other].byte_count == bytes_at(
            fragments,
            index as int + 1,
            other.0,
            other.1,
        ) by {
            if other != key {
                assert(found.contains_key(other));
            }
        }
        assert forall|binding: usize, tensor: Seq<char>|
            !next.contains_key((binding, tensor)) implies #[trigger] bytes_at(
            fragments,
            index as int + 1,
            binding,
            tensor,
        ) == 0 by {
            assert(!found.contains_key((binding, tensor)));
            assert(bytes_at(fragments, index as int, binding, tensor) == 0);
        }
        lemma_joined(fragments, index + 1, next);
    }
}

/// Some fragment of a list holds another.
pub open spec fn is_held(
    wholes: Seq<VulkanDistributedParameterFragmentModel>,
    part: VulkanDistributedParameterFragmentModel,
) -> bool {
    exists|p: int| 0 <= p < wholes.len() && lies_within(part, #[trigger] wholes[p])
}

proof fn lemma_fragment_listed(
    shards: Seq<VulkanDistributedDispatchShardModel>,
    shard: int,
    fragment: int,
)
    requires
        0 <= shard < shards.len(),
        0 <= fragment < shards[shard].parameters.len(),
    ensures
        all_fragments(shards).contains(shards[shard].parameters[fragment]),
    decreases shards.len(),
{
    let rest = shards.drop_last();
    let earlier = all_fragments(rest);
    let all = all_fragments(shards);
    let item = shards[shard].parameters[fragment];
    if shard < rest.len() {
        lemma_fragment_listed(rest, shard, fragment);
        let k = choose|k: int| 0 <= k < earlier.len() && earlier[k] == item;
        assert(all[k] == item);
    } else {
        assert(all[earlier.len() + fragment] == item);
    }
}

/// One shard for all shards of a dispatch starts where the first one does and reads the whole
/// of what they read. Where shards follow each other it ends where the last one ends, in rows
/// and, where the output is cut, in output bytes; and its workgroups are to its rows as
/// theirs are. Where the output is not cut it launches and writes what the first one does.
pub proof fn law_merged_shards_are_the_whole(
    dispatch: VulkanDistributedDispatchPlanModel,
    rows: int,
    workgroups: int,
)
    requires
        merged_shard(dispatch) is Ok,
    ensures
        ({
            let shards = dispatch.shards;
            let whole = merged_shard(dispatch)->Ok_0;
            &&& shards.len() > 0
            &&& whole.device_id == shards.first().device_id
            &&& whole.row_start == shards.first().row_start
            &&& whole.base_workgroup_z == shards.first().base_workgroup_z
            &&& whole.output_byte_offset == shards.first().output_byte_offset
            &&& rows_follow(shards) ==> whole.row_start + whole.row_count
                == shards.last().row_start + shards.last().row_count
            &&& dispatch.distribution is OutputRows && outputs_follow(shards)
                ==> whole.output_byte_offset + whole.output_byte_count
                == shards.last().output_byte_offset + shards.last().output_byte_count
            &&& dispatch.distribution is OutputRows && workgroups_are_as(shards, rows, workgroups)
                ==> whole.workgroup_count_x * rows == whole.row_count * workgroups
            &&& !(dispatch.distribution is OutputRows) ==> whole.workgroup_count_x
                == shards.first().workgroup_count_x && whole.output_byte_count
                == shards.first().output_byte_count
            &&& is_whole_range(
                Seq::new(shards.len(), |i: int| shards[i].input_range),
                whole.input_range,
            )
            &&& whole.auxiliary_input_ranges.len() == shards.first().auxiliary_input_ranges.len()
            &&& forall|a: int|
                0 <= a < whole.auxiliary_input_ranges.len() ==> is_whole_range(
                    Seq::new(shards.len(), |i: int| shards[i].auxiliary_input_ranges[a]),
                    #[trigger] whole.auxiliary_input_ranges[a],
                )
            &&& whole.selected_resource_indices.dom() == Set::<Seq<char>>::empty()
            &&& whole.selected_resource_fragments.dom() == Set::<Seq<char>>::empty()
        }),
{
    let shards = dispatch.shards;
    let whole = merged_shard(dispatch)->Ok_0;
    lemma_rows_add_up(shards);
    if workgroups_are_as(shards, rows, workgroups) {
        lemma_workgroups_add_up(shards, rows, workgroups);
    }
    lemma_whole_range(dispatch, input_ranges_of(shards), "input"@);
    assert(Seq::new(shards.len(), |i: int| shards[i].input_range) =~= input_ranges_of(shards));
    let count = shards[0].auxiliary_input_ranges.len();
    lemma_whole_auxiliary(dispatch, count, 0, Seq::empty());
    assert forall|a: int| 0 <= a < whole.auxiliary_input_ranges.len() implies is_whole_range(
        Seq::new(shards.len(), |i: int| shards[i].auxiliary_input_ranges[a]),
        #[trigger] whole.auxiliary_input_ranges[a],
    ) by {
        assert(Seq::new(shards.len(), |i: int| shards[i].auxiliary_input_ranges[a])
            =~= auxiliary_ranges_of(shards, a));
    }
}

/// One shard for all shards of a dispatch has one fragment of every tensor at a binding, with
/// room for the bytes of all of theirs and no more, and each of theirs lies within it.
pub proof fn law_merged_shards_hold_every_fragment(
    dispatch: VulkanDistributedDispatchPlanModel,
    shard: int,
    fragment: int,
)
    requires
        merged_shard(dispatch) is Ok,
        0 <= shard < dispatch.shards.len(),
        0 <= fragment < dispatch.shards[shard].parameters.len(),
    ensures
        ({
            let whole = merged_shard(dispatch)->Ok_0;
            let all = all_fragments(dispatch.shards);
            &&& is_held(whole.parameters, dispatch.shards[shard].parameters[fragment])
            &&& forall|p: int|
                0 <= p < whole.parameters.len() ==> (#[trigger] whole.parameters[p]).byte_count
                    == bytes_at(
                    all,
                    all.len() as int,
                    whole.parameters[p].binding,
                    whole.parameters[p].tensor,
                )
            &&& forall|p: int, q: int|
                #![trigger whole.parameters[p], whole.parameters[q]]
                0 <= p < q < whole.parameters.len() ==> whole.parameters[p].binding
                    != whole.parameters[q].binding || whole.parameters[p].tensor
                    != whole.parameters[q].tensor
        }),
{
    let whole = merged_shard(dispatch)->Ok_0;
    let all = all_fragments(dispatch.shards);
    lemma_joined(all, 0, Map::empty());
    let found = fold_from(all, 0, Map::empty(), merged_fragment_step())->Ok_0;
    let listing = ordered_listing::<(usize, String), VulkanDistributedParameterFragmentModel>(
        found,
    );
    lemma_ordered_listing_exists::<(usize, String), VulkanDistributedParameterFragmentModel>(found);
    let item = dispatch.shards[shard].parameters[fragment];
    lemma_fragment_listed(dispatch.shards, shard, fragment);
    let f = choose|f: int| 0 <= f < all.len() && all[f] == item;
    let key = (all[f].binding, all[f].tensor);
    assert(found.contains_key(key));
    assert(lists_key(listing, key));
    let k = choose|k: int| 0 <= k < listing.len() && #[trigger] listing[k].0 == key;
    lemma_listed_at::<(usize, String), VulkanDistributedParameterFragmentModel>(listing, k);
    assert(whole.parameters[k] == found[key]);
    assert forall|p: int| 0 <= p < whole.parameters.len() implies (
    #[trigger] whole.parameters[p]).byte_count == bytes_at(
        all,
        all.len() as int,
        whole.parameters[p].binding,
        whole.parameters[p].tensor,
    ) && listing[p].0 == (whole.parameters[p].binding, whole.parameters[p].tensor) by {
        lemma_listed_at::<(usize, String), VulkanDistributedParameterFragmentModel>(listing, p);
        assert(found.contains_key(listing[p].0));
    }
    assert forall|p: int, q: int|
        #![trigger whole.parameters[p], whole.parameters[q]]
        0 <= p < q < whole.parameters.len() implies whole.parameters[p].binding
        != whole.parameters[q].binding || whole.parameters[p].tensor
        != whole.parameters[q].tensor by {
        assert(<(usize, String) as crate::values::OrderedKey>::before(listing[p].0, listing[q].0));
        <(usize, String) as crate::values::OrderedKey>::order_is_irreflexive(listing[p].0);
    }
}

} // verus!
