//! Sampling distributed plans down to a parameter budget.
use vstd::prelude::*;

use crate::arithmetic::is_multiple;
use crate::contracts::{ExecutionPhase, InputDistribution};
use crate::dispatch_shards::{
    VulkanDistributedActivationRange, VulkanDistributedDispatchShard,
    VulkanDistributedDispatchShardModel, VulkanDistributedParameterFragment,
    VulkanDistributedParameterFragmentModel,
};
use crate::errors::{plan_agrees, VulkanDistributedPlanError};
use crate::execution_plans::{
    VulkanDistributedDispatchDistribution, VulkanDistributedDispatchPlan,
    VulkanDistributedDispatchPlanModel, VulkanDistributedExecutionPlan,
    VulkanDistributedExecutionPlanModel,
};
use crate::island_plans::{resolved_islands, resolved_physical_execution_islands};
use crate::islands::{append_all, fragment_bytes, total_fragment_bytes};
use crate::ordered::{ordered_values, OrderedMap};
use crate::parameter_plans::{execution_parameters, VulkanDistributedParameterAllocationPlan};
use crate::planning::{device_pool_fault_from, validate_device_pool};
use crate::prepared::{TensorIndex, TensorIndexModel};
use crate::row_distribution::smaller;
use crate::sequences::{append, fold_from, lemma_sum_prefix, lemma_sum_step, sum_of};
use crate::text::{debug_text, decimal, decimal_text, join3, join5, join7, quoted};
use crate::values::PlainValue;

verus! {

/// The parts in which fractions of rows are counted.
pub const SAMPLE_SCALE: usize = 1_000_000;

/// The name of a dispatch in messages.
pub open spec fn dispatch_name(dispatch: VulkanDistributedDispatchPlanModel) -> Seq<char> {
    dispatch.component_id + "."@ + dispatch.node_id
}

fn name_of(dispatch: &VulkanDistributedDispatchPlan) -> (name: String)
    ensures
        name@ == dispatch_name(dispatch.deep_view()),
{
    join3(dispatch.component_id.as_str(), ".", dispatch.node_id.as_str())
}

/// The end of ranges that follow each other from an index on, or the text of the
/// error.
pub open spec fn contiguous_end_from(
    dispatch: VulkanDistributedDispatchPlanModel,
    ranges: Seq<VulkanDistributedActivationRange>,
    label: Seq<char>,
    index: nat,
    end: usize,
) -> Result<usize, Seq<char>>
    decreases ranges.len() - index,
{
    if index >= ranges.len() {
        Ok(end)
    } else if ranges[index as int].byte_offset != end {
        Err(
            "distributed dispatch "@ + dispatch_name(dispatch) + " has non-contiguous "@ + label
                + " ranges"@,
        )
    } else if end + ranges[index as int].byte_count > usize::MAX {
        Err("merged distributed "@ + label + " range overflowed"@)
    } else {
        contiguous_end_from(
            dispatch,
            ranges,
            label,
            index + 1,
            (end + ranges[index as int].byte_count) as usize,
        )
    }
}

/// One range for the ranges of all shards: the common one, or the one that they
/// make up one after the other; or the text of the error.
pub open spec fn merged_range(
    dispatch: VulkanDistributedDispatchPlanModel,
    ranges: Seq<VulkanDistributedActivationRange>,
    label: Seq<char>,
) -> Result<VulkanDistributedActivationRange, Seq<char>> {
    if ranges.len() == 0 {
        Err("distributed dispatch "@ + dispatch_name(dispatch) + " has no "@ + label + " ranges"@)
    } else if forall|i: int| 0 <= i < ranges.len() ==> #[trigger] ranges[i] == ranges[0] {
        Ok(ranges[0])
    } else if ranges[0].byte_offset + ranges[0].byte_count > usize::MAX {
        Err("merged distributed "@ + label + " range overflowed"@)
    } else {
        match contiguous_end_from(
            dispatch,
            ranges,
            label,
            1,
            (ranges[0].byte_offset + ranges[0].byte_count) as usize,
        ) {
            Err(message) => Err(message),
            Ok(end) => Ok(
                VulkanDistributedActivationRange {
                    byte_offset: ranges[0].byte_offset,
                    byte_count: (end - ranges[0].byte_offset) as usize,
                },
            ),
        }
    }
}

fn merge_ranges(
    dispatch: &VulkanDistributedDispatchPlan,
    ranges: &Vec<VulkanDistributedActivationRange>,
    label: &str,
) -> (outcome: Result<VulkanDistributedActivationRange, VulkanDistributedPlanError>)
    ensures
        plan_agrees(outcome, merged_range(dispatch.deep_view(), ranges@, label@)),
{
    if ranges.len() == 0 {
        return Err(
            VulkanDistributedPlanError(
                join5(
                    "distributed dispatch ",
                    name_of(dispatch).as_str(),
                    " has no ",
                    label,
                    " ranges",
                ),
            ),
        );
    }
    let leading = ranges[0];
    let mut index: usize = 0;
    while index < ranges.len() && ranges[index] == leading
        invariant
            ranges.len() > 0,
            leading == ranges@[0],
            index <= ranges.len(),
            forall|i: int| 0 <= i < index ==> #[trigger] ranges@[i] == leading,
        decreases ranges.len() - index,
    {
        index += 1;
    }
    if index == ranges.len() {
        return Ok(leading);
    }
    assert(ranges@[index as int] != ranges@[0]);
    let ghost model = dispatch.deep_view();
    let ghost all = ranges@;
    let mut byte_end: usize = match leading.byte_offset.checked_add(leading.byte_count) {
        None => {
            return Err(
                VulkanDistributedPlanError(
                    join3("merged distributed ", label, " range overflowed"),
                ),
            );
        },
        Some(end) => end,
    };
    let ghost first_end = byte_end;
    for position in 1..ranges.len()
        invariant
            ranges.len() > 0,
            model == dispatch.deep_view(),
            all == ranges@,
            leading == all[0],
            byte_end >= leading.byte_offset,
            first_end == leading.byte_offset + leading.byte_count,
            merged_range(model, all, label@) == (match contiguous_end_from(
                model,
                all,
                label@,
                1,
                first_end,
            ) {
                Err(message) => Err::<VulkanDistributedActivationRange, Seq<char>>(message),
                Ok(end) => Ok(
                    VulkanDistributedActivationRange {
                        byte_offset: leading.byte_offset,
                        byte_count: (end - leading.byte_offset) as usize,
                    },
                ),
            }),
            contiguous_end_from(model, all, label@, 1, first_end) == contiguous_end_from(
                model,
                all,
                label@,
                position as nat,
                byte_end,
            ),
    {
        let range = ranges[position];
        if range.byte_offset != byte_end {
            return Err(
                VulkanDistributedPlanError(
                    join5(
                        "distributed dispatch ",
                        name_of(dispatch).as_str(),
                        " has non-contiguous ",
                        label,
                        " ranges",
                    ),
                ),
            );
        }
        match byte_end.checked_add(range.byte_count) {
            None => {
                return Err(
                    VulkanDistributedPlanError(
                        join3("merged distributed ", label, " range overflowed"),
                    ),
                );
            },
            Some(end) => {
                byte_end = end;
            },
        }
    }
    Ok(
        VulkanDistributedActivationRange {
            byte_offset: leading.byte_offset,
            byte_count: byte_end - leading.byte_offset,
        },
    )
}

/// The input ranges of shards.
pub open spec fn input_ranges_of(shards: Seq<VulkanDistributedDispatchShardModel>) -> Seq<
    VulkanDistributedActivationRange,
> {
    Seq::new(shards.len(), |i: int| shards[i].input_range)
}

/// The ranges that shards have for one auxiliary input.
pub open spec fn auxiliary_ranges_of(
    shards: Seq<VulkanDistributedDispatchShardModel>,
    input: int,
) -> Seq<VulkanDistributedActivationRange> {
    Seq::new(shards.len(), |i: int| shards[i].auxiliary_input_ranges[input])
}

/// The merged ranges of auxiliary inputs from an input on, behind those found
/// already; or the text of the error.
pub open spec fn merged_auxiliary_from(
    dispatch: VulkanDistributedDispatchPlanModel,
    count: nat,
    index: nat,
    found: Seq<VulkanDistributedActivationRange>,
) -> Result<Seq<VulkanDistributedActivationRange>, Seq<char>>
    decreases count - index,
{
    if index >= count {
        Ok(found)
    } else {
        match merged_range(
            dispatch,
            auxiliary_ranges_of(dispatch.shards, index as int),
            "auxiliary input"@,
        ) {
            Err(message) => Err(message),
            Ok(range) => merged_auxiliary_from(dispatch, count, index + 1, found.push(range)),
        }
    }
}

/// The fragments of shards, shard by shard.
pub open spec fn all_fragments(shards: Seq<VulkanDistributedDispatchShardModel>) -> Seq<
    VulkanDistributedParameterFragmentModel,
>
    decreases shards.len(),
{
    if shards.len() == 0 {
        Seq::empty()
    } else {
        all_fragments(shards.drop_last()) + shards.last().parameters
    }
}

/// Joins a fragment to the one before it of the same binding and tensor.
pub open spec fn merged_fragment_step() -> spec_fn(
    Map<(usize, Seq<char>), VulkanDistributedParameterFragmentModel>,
    VulkanDistributedParameterFragmentModel,
) -> Result<Map<(usize, Seq<char>), VulkanDistributedParameterFragmentModel>, Seq<char>> {
    |found: Map<(usize, Seq<char>), VulkanDistributedParameterFragmentModel>,
        fragment: VulkanDistributedParameterFragmentModel|
        {
            let key = (fragment.binding, fragment.tensor);
            if !found.contains_key(key) {
                Ok(found.insert(key, fragment))
            } else if found[key].byte_offset + found[key].byte_count > usize::MAX {
                Err("merged distributed parameter range overflowed"@)
            } else if fragment.byte_offset != found[key].byte_offset + found[key].byte_count {
                Err(
                    "distributed parameter "@ + debug_text(fragment.tensor) + " binding "@
                        + decimal_text(fragment.binding as nat)
                        + " has non-contiguous shard ranges"@,
                )
            } else if found[key].byte_count + fragment.byte_count > usize::MAX {
                Err("merged distributed parameter bytes overflowed"@)
            } else {
                Ok(
                    found.insert(
                        key,
                        VulkanDistributedParameterFragmentModel {
                            byte_count: (found[key].byte_count + fragment.byte_count) as usize,
                            ..found[key]
                        },
                    ),
                )
            }
        }
}

/// The rows of a shard.
pub open spec fn shard_rows() -> spec_fn(VulkanDistributedDispatchShardModel) -> nat {
    |shard: VulkanDistributedDispatchShardModel| shard.row_count as nat
}

/// The workgroups of a shard.
pub open spec fn shard_workgroups() -> spec_fn(VulkanDistributedDispatchShardModel) -> nat {
    |shard: VulkanDistributedDispatchShardModel| shard.workgroup_count_x as nat
}

/// The output bytes of a shard.
pub open spec fn shard_output_bytes() -> spec_fn(VulkanDistributedDispatchShardModel) -> nat {
    |shard: VulkanDistributedDispatchShardModel| shard.output_byte_count as nat
}

/// One shard for all shards of a dispatch, or the text of the error.
pub open spec fn merged_shard(dispatch: VulkanDistributedDispatchPlanModel) -> Result<
    VulkanDistributedDispatchShardModel,
    Seq<char>,
> {
    let shards = dispatch.shards;
    let auxiliary = shards[0].auxiliary_input_ranges.len();
    if shards.len() == 0 {
        Err(
            "distributed dispatch "@ + dispatch_name(dispatch) + " has no shards to merge"@,
        )
    } else if sum_of(shards, shard_rows()) > usize::MAX {
        Err("merged distributed row count overflowed"@)
    } else {
        match merged_range(dispatch, input_ranges_of(shards), "input"@) {
            Err(message) => Err(message),
            Ok(input_range) => if exists|i: int|
                0 <= i < shards.len() && (#[trigger] shards[i]).auxiliary_input_ranges.len()
                    != auxiliary {
                Err(
                    "distributed dispatch "@ + dispatch_name(dispatch)
                        + " has inconsistent auxiliary ranges"@,
                )
            } else {
                match merged_auxiliary_from(dispatch, auxiliary, 0, Seq::empty()) {
                    Err(message) => Err(message),
                    Ok(auxiliary_input_ranges) => match fold_from(
                        all_fragments(shards),
                        0,
                        Map::empty(),
                        merged_fragment_step(),
                    ) {
                        Err(message) => Err(message),
                        Ok(parameters) => if dispatch.distribution is OutputRows && sum_of(
                            shards,
                            shard_workgroups(),
                        ) > u32::MAX {
                            Err("merged distributed workgroup count overflowed"@)
                        } else if dispatch.distribution is OutputRows && sum_of(
                            shards,
                            shard_output_bytes(),
                        ) > usize::MAX {
                            Err("merged distributed output bytes overflowed"@)
                        } else {
                            Ok(
                                VulkanDistributedDispatchShardModel {
                                    device_id: shards[0].device_id,
                                    selected_resource_indices: Map::empty(),
                                    selected_resource_fragments: Map::empty(),
                                    row_start: shards[0].row_start,
                                    row_count: sum_of(shards, shard_rows()) as usize,
                                    workgroup_count_x: if dispatch.distribution is OutputRows {
                                        sum_of(shards, shard_workgroups()) as u32
                                    } else {
                                        shards[0].workgroup_count_x
                                    },
                                    base_workgroup_z: shards[0].base_workgroup_z,
                                    input_range,
                                    auxiliary_input_ranges,
                                    output_byte_offset: shards[0].output_byte_offset,
                                    output_byte_count: if dispatch.distribution is OutputRows {
                                        sum_of(shards, shard_output_bytes()) as usize
                                    } else {
                                        shards[0].output_byte_count
                                    },
                                    parameters: ordered_values::<
                                        (usize, String),
                                        VulkanDistributedParameterFragmentModel,
                                    >(parameters),
                                },
                            )
                        },
                    },
                }
            },
        }
    }
}

fn total_rows(shards: &Vec<VulkanDistributedDispatchShard>) -> (total: Option<usize>)
    ensures
        match total {
            Some(rows) => rows == sum_of(shards.deep_view(), shard_rows()),
            None => sum_of(shards.deep_view(), shard_rows()) > usize::MAX,
        },
{
    let ghost all = shards.deep_view();
    let ghost measure = shard_rows();
    let mut total: usize = 0;
    for index in 0..shards.len()
        invariant
            all == shards.deep_view(),
            measure == shard_rows(),
            total == sum_of(all.take(index as int), measure),
    {
        proof {
            lemma_sum_step(all, measure, index as int);
            lemma_sum_prefix(all, measure, index as int + 1);
            assert(all[index as int] == shards@[index as int].deep_view());
        }
        match total.checked_add(shards[index].row_count) {
            None => {
                return None;
            },
            Some(sum) => {
                total = sum;
            },
        }
    }
    assert(all.take(all.len() as int) =~= all);
    Some(total)
}

fn total_workgroups(shards: &Vec<VulkanDistributedDispatchShard>) -> (total: Option<u32>)
    ensures
        match total {
            Some(count) => count == sum_of(shards.deep_view(), shard_workgroups()),
            None => sum_of(shards.deep_view(), shard_workgroups()) > u32::MAX,
        },
{
    let ghost all = shards.deep_view();
    let ghost measure = shard_workgroups();
    let mut total: u32 = 0;
    for index in 0..shards.len()
        invariant
            all == shards.deep_view(),
            measure == shard_workgroups(),
            total == sum_of(all.take(index as int), measure),
    {
        proof {
            lemma_sum_step(all, measure, index as int);
            lemma_sum_prefix(all, measure, index as int + 1);
            assert(all[index as int] == shards@[index as int].deep_view());
        }
        match total.checked_add(shards[index].workgroup_count_x) {
            None => {
                return None;
            },
            Some(sum) => {
                total = sum;
            },
        }
    }
    assert(all.take(all.len() as int) =~= all);
    Some(total)
}

fn total_output_bytes(shards: &Vec<VulkanDistributedDispatchShard>) -> (total: Option<usize>)
    ensures
        match total {
            Some(bytes) => bytes == sum_of(shards.deep_view(), shard_output_bytes()),
            None => sum_of(shards.deep_view(), shard_output_bytes()) > usize::MAX,
        },
{
    let ghost all = shards.deep_view();
    let ghost measure = shard_output_bytes();
    let mut total: usize = 0;
    for index in 0..shards.len()
        invariant
            all == shards.deep_view(),
            measure == shard_output_bytes(),
            total == sum_of(all.take(index as int), measure),
    {
        proof {
            lemma_sum_step(all, measure, index as int);
            lemma_sum_prefix(all, measure, index as int + 1);
            assert(all[index as int] == shards@[index as int].deep_view());
        }
        match total.checked_add(shards[index].output_byte_count) {
            None => {
                return None;
            },
            Some(sum) => {
                total = sum;
            },
        }
    }
    assert(all.take(all.len() as int) =~= all);
    Some(total)
}

pub(crate) fn list_fragments(shards: &Vec<VulkanDistributedDispatchShard>) -> (fragments: Vec<
    VulkanDistributedParameterFragment,
>)
    ensures
        fragments.deep_view() == all_fragments(shards.deep_view()),
{
    let ghost all = shards.deep_view();
    let mut fragments: Vec<VulkanDistributedParameterFragment> = Vec::new();
    assert(fragments.deep_view() =~= Seq::empty());
    for index in 0..shards.len()
        invariant
            all == shards.deep_view(),
            fragments.deep_view() == all_fragments(all.take(index as int)),
    {
        assert(all.take(index as int + 1).drop_last() =~= all.take(index as int));
        assert(all[index as int] == shards@[index as int].deep_view());
        append_all(&mut fragments, &shards[index].parameters);
    }
    assert(all.take(all.len() as int) =~= all);
    fragments
}

fn merge_fragments(fragments: &Vec<VulkanDistributedParameterFragment>) -> (outcome: Result<
    OrderedMap<(usize, String), VulkanDistributedParameterFragment>,
    VulkanDistributedPlanError,
>)
    ensures
        plan_agrees(
            outcome,
            fold_from(fragments.deep_view(), 0, Map::empty(), merged_fragment_step()),
        ),
{
    let ghost all = fragments.deep_view();
    let ghost step = merged_fragment_step();
    let mut found: OrderedMap<(usize, String), VulkanDistributedParameterFragment> =
        OrderedMap::new();
    for index in 0..fragments.len()
        invariant
            all == fragments.deep_view(),
            step == merged_fragment_step(),
            fold_from(all, 0, Map::empty(), step) == fold_from(
                all,
                index as nat,
                found.deep_view(),
                step,
            ),
    {
        let fragment = &fragments[index];
        assert(all[index as int] == fragment.deep_view());
        let key: (usize, String) = (fragment.binding, fragment.tensor.clone());
        let next = match found.get(&key) {
            None => fragment.duplicate(),
            Some(merged) => {
                let expected_offset: usize = match merged.byte_offset.checked_add(
                    merged.byte_count,
                ) {
                    None => {
                        return Err(
                            VulkanDistributedPlanError(
                                "merged distributed parameter range overflowed".to_owned(),
                            ),
                        );
                    },
                    Some(end) => end,
                };
                if fragment.byte_offset != expected_offset {
                    return Err(
                        VulkanDistributedPlanError(
                            join5(
                                "distributed parameter ",
                                quoted(fragment.tensor.as_str()).as_str(),
                                " binding ",
                                decimal(fragment.binding).as_str(),
                                " has non-contiguous shard ranges",
                            ),
                        ),
                    );
                }
                let byte_count: usize = match merged.byte_count.checked_add(fragment.byte_count) {
                    None => {
                        return Err(
                            VulkanDistributedPlanError(
                                "merged distributed parameter bytes overflowed".to_owned(),
                            ),
                        );
                    },
                    Some(bytes) => bytes,
                };
                VulkanDistributedParameterFragment {
                    binding: merged.binding,
                    tensor: merged.tensor.clone(),
                    byte_offset: merged.byte_offset,
                    byte_count,
                }
            },
        };
        found.insert(key, next);
    }
    Ok(found)
}

/// Merges all shards of a dispatch into one.
pub fn merged_distributed_dispatch_shard(dispatch: &VulkanDistributedDispatchPlan) -> (outcome:
    Result<VulkanDistributedDispatchShard, VulkanDistributedPlanError>)
    ensures
        plan_agrees(outcome, merged_shard(dispatch.deep_view())),
{
    let ghost model = dispatch.deep_view();
    let ghost shards = model.shards;
    if dispatch.shards.len() == 0 {
        return Err(
            VulkanDistributedPlanError(
                join3(
                    "distributed dispatch ",
                    name_of(dispatch).as_str(),
                    " has no shards to merge",
                ),
            ),
        );
    }
    let first = &dispatch.shards[0];
    assert(shards[0] == first.deep_view());
    let row_count: usize = match total_rows(&dispatch.shards) {
        None => {
            return Err(
                VulkanDistributedPlanError("merged distributed row count overflowed".to_owned()),
            );
        },
        Some(rows) => rows,
    };
    let mut inputs: Vec<VulkanDistributedActivationRange> = Vec::new();
    for index in 0..dispatch.shards.len()
        invariant
            inputs.len() == index,
            forall|i: int|
                0 <= i < index ==> #[trigger] inputs@[i] == dispatch.shards@[i].input_range,
    {
        inputs.push(dispatch.shards[index].input_range);
    }
    assert(inputs@ =~= input_ranges_of(shards));
    let input_range = match merge_ranges(dispatch, &inputs, "input") {
        Err(error) => {
            return Err(error);
        },
        Ok(range) => range,
    };
    let auxiliary_count: usize = first.auxiliary_input_ranges.len();
    let ghost expected = merged_shard(model);
    for index in 0..dispatch.shards.len()
        invariant
            model == dispatch.deep_view(),
            shards == model.shards,
            expected == merged_shard(model),
            shards.len() > 0,
            auxiliary_count == shards[0].auxiliary_input_ranges.len(),
            sum_of(shards, shard_rows()) <= usize::MAX,
            merged_range(model, input_ranges_of(shards), "input"@) is Ok,
            forall|i: int|
                0 <= i < index ==> (#[trigger] shards[i]).auxiliary_input_ranges.len()
                    == auxiliary_count,
    {
        assert(shards[index as int] == dispatch.shards@[index as int].deep_view());
        if dispatch.shards[index].auxiliary_input_ranges.len() != auxiliary_count {
            return Err(
                VulkanDistributedPlanError(
                    join3(
                        "distributed dispatch ",
                        name_of(dispatch).as_str(),
                        " has inconsistent auxiliary ranges",
                    ),
                ),
            );
        }
    }
    let mut auxiliary_input_ranges: Vec<VulkanDistributedActivationRange> = Vec::new();
    assert(auxiliary_input_ranges.deep_view() =~= Seq::empty());
    for input in 0..auxiliary_count
        invariant
            model == dispatch.deep_view(),
            shards == model.shards,
            expected == merged_shard(model),
            shards.len() > 0,
            auxiliary_count == shards[0].auxiliary_input_ranges.len(),
            sum_of(shards, shard_rows()) <= usize::MAX,
            merged_range(model, input_ranges_of(shards), "input"@) is Ok,
            forall|i: int|
                0 <= i < shards.len() ==> (#[trigger] shards[i]).auxiliary_input_ranges.len()
                    == auxiliary_count,
            merged_auxiliary_from(model, auxiliary_count as nat, 0, Seq::empty())
                == merged_auxiliary_from(
                model,
                auxiliary_count as nat,
                input as nat,
                auxiliary_input_ranges.deep_view(),
            ),
    {
        let mut ranges: Vec<VulkanDistributedActivationRange> = Vec::new();
        for index in 0..dispatch.shards.len()
            invariant
                model == dispatch.deep_view(),
                shards == model.shards,
                0 <= input < auxiliary_count,
                forall|i: int|
                    0 <= i < shards.len() ==> (#[trigger] shards[i]).auxiliary_input_ranges.len()
                        == auxiliary_count,
                ranges.len() == index,
                forall|i: int|
                    0 <= i < index ==> #[trigger] ranges@[i]
                        == shards[i].auxiliary_input_ranges[input as int],
        {
            assert(shards[index as int] == dispatch.shards@[index as int].deep_view());
            let shard = &dispatch.shards[index];
            assert(shard.deep_view().auxiliary_input_ranges.len() == auxiliary_count);
            ranges.push(shard.auxiliary_input_ranges[input]);
        }
        assert(ranges@ =~= auxiliary_ranges_of(shards, input as int));
        match merge_ranges(dispatch, &ranges, "auxiliary input") {
            Err(error) => {
                return Err(error);
            },
            Ok(range) => {
                append(&mut auxiliary_input_ranges, range);
            },
        }
    }
    let fragments = list_fragments(&dispatch.shards);
    let parameters = match merge_fragments(&fragments) {
        Err(error) => {
            return Err(error);
        },
        Ok(parameters) => parameters,
    };
    let (workgroup_count_x, output_byte_count): (u32, usize) = match dispatch.distribution {
        VulkanDistributedDispatchDistribution::OutputRows => {
            let workgroups: u32 = match total_workgroups(&dispatch.shards) {
                None => {
                    return Err(
                        VulkanDistributedPlanError(
                            "merged distributed workgroup count overflowed".to_owned(),
                        ),
                    );
                },
                Some(count) => count,
            };
            let bytes: usize = match total_output_bytes(&dispatch.shards) {
                None => {
                    return Err(
                        VulkanDistributedPlanError(
                            "merged distributed output bytes overflowed".to_owned(),
                        ),
                    );
                },
                Some(bytes) => bytes,
            };
            (workgroups, bytes)
        },
        _ => (first.workgroup_count_x, first.output_byte_count),
    };
    Ok(
        VulkanDistributedDispatchShard {
            device_id: first.device_id.clone(),
            selected_resource_indices: OrderedMap::new(),
            selected_resource_fragments: OrderedMap::new(),
            row_start: first.row_start,
            row_count,
            workgroup_count_x,
            base_workgroup_z: first.base_workgroup_z,
            input_range,
            auxiliary_input_ranges,
            output_byte_offset: first.output_byte_offset,
            output_byte_count,
            parameters: parameters.to_values(),
        },
    )
}

/// The rows of a sampled shard: the fraction of the rows, cut down to the alignment
/// but at least one aligned group, and never more than all; or the text of the
/// error.
pub open spec fn sampled_rows(
    row_alignment: usize,
    row_count: usize,
    numerator: usize,
    denominator: usize,
) -> Result<usize, Seq<char>> {
    let proportional = smaller(
        (row_count * numerator) / denominator as int,
        row_count as int,
    );
    let groups = if proportional / row_alignment as int == 0 {
        1int
    } else {
        proportional / row_alignment as int
    };
    if row_count * numerator > usize::MAX {
        Err("sampled distributed row calculation overflowed"@)
    } else if groups * row_alignment > usize::MAX {
        Err("sampled distributed aligned row count overflowed"@)
    } else {
        Ok(smaller(groups * row_alignment, row_count as int) as usize)
    }
}

fn sample_rows(
    row_alignment: usize,
    row_count: usize,
    numerator: usize,
    denominator: usize,
) -> (outcome: Result<usize, VulkanDistributedPlanError>)
    requires
        row_alignment > 0,
        denominator > 0,
    ensures
        plan_agrees(outcome, sampled_rows(row_alignment, row_count, numerator, denominator)),
{
    let product: usize = match row_count.checked_mul(numerator) {
        None => {
            return Err(
                VulkanDistributedPlanError(
                    "sampled distributed row calculation overflowed".to_owned(),
                ),
            );
        },
        Some(product) => product,
    };
    let fraction: usize = product / denominator;
    let proportional: usize = if fraction <= row_count {
        fraction
    } else {
        row_count
    };
    let whole: usize = proportional / row_alignment;
    let groups: usize = if whole == 0 {
        1
    } else {
        whole
    };
    match groups.checked_mul(row_alignment) {
        None => Err(
            VulkanDistributedPlanError(
                "sampled distributed aligned row count overflowed".to_owned(),
            ),
        ),
        Some(rows) => Ok(
            if rows <= row_count {
                rows
            } else {
                row_count
            },
        ),
    }
}

/// A number that grows with the rows of a shard, for fewer rows; or the text of the
/// error.
pub open spec fn scaled(
    dispatch: VulkanDistributedDispatchPlanModel,
    source_rows: usize,
    rows: usize,
    value: usize,
    label: Seq<char>,
) -> Result<usize, Seq<char>> {
    if value * rows > usize::MAX || !is_multiple(value * rows, source_rows as int) {
        Err(
            "sampled distributed "@ + label + " is not row-aligned for "@ + dispatch_name(dispatch),
        )
    } else {
        Ok(((value * rows) / source_rows as int) as usize)
    }
}

fn scale(
    dispatch: &VulkanDistributedDispatchPlan,
    source_rows: usize,
    rows: usize,
    value: usize,
    label: &str,
) -> (outcome: Result<usize, VulkanDistributedPlanError>)
    requires
        source_rows > 0,
    ensures
        plan_agrees(outcome, scaled(dispatch.deep_view(), source_rows, rows, value, label@)),
{
    let product: Option<usize> = value.checked_mul(rows);
    let whole: bool = match product {
        None => false,
        Some(product) => product.is_multiple_of(source_rows),
    };
    match product {
        Some(product) => if whole {
            return Ok(product / source_rows);
        },
        None => {},
    }
    Err(
        VulkanDistributedPlanError(
            crate::text::join4(
                "sampled distributed ",
                label,
                " is not row-aligned for ",
                name_of(dispatch).as_str(),
            ),
        ),
    )
}

/// The range of an activation for fewer rows: a sharded one shrinks with them; or
/// the text of the error.
pub open spec fn scaled_range(
    dispatch: VulkanDistributedDispatchPlanModel,
    source_rows: usize,
    rows: usize,
    range: VulkanDistributedActivationRange,
    distribution: InputDistribution,
    label: Seq<char>,
) -> Result<VulkanDistributedActivationRange, Seq<char>> {
    if distribution is Sharded {
        match scaled(dispatch, source_rows, rows, range.byte_count, label) {
            Err(message) => Err(message),
            Ok(byte_count) => Ok(
                VulkanDistributedActivationRange { byte_offset: range.byte_offset, byte_count },
            ),
        }
    } else {
        Ok(range)
    }
}

fn scale_range(
    dispatch: &VulkanDistributedDispatchPlan,
    source_rows: usize,
    rows: usize,
    range: VulkanDistributedActivationRange,
    distribution: InputDistribution,
    label: &str,
) -> (outcome: Result<VulkanDistributedActivationRange, VulkanDistributedPlanError>)
    requires
        source_rows > 0,
    ensures
        plan_agrees(
            outcome,
            scaled_range(dispatch.deep_view(), source_rows, rows, range, distribution, label@),
        ),
{
    if distribution == InputDistribution::Sharded {
        match scale(dispatch, source_rows, rows, range.byte_count, label) {
            Err(error) => Err(error),
            Ok(byte_count) => Ok(
                VulkanDistributedActivationRange { byte_offset: range.byte_offset, byte_count },
            ),
        }
    } else {
        Ok(range)
    }
}

/// The auxiliary ranges for fewer rows from an input on, behind those found already;
/// or the text of the error.
pub open spec fn scaled_auxiliary_from(
    dispatch: VulkanDistributedDispatchPlanModel,
    source: VulkanDistributedDispatchShardModel,
    rows: usize,
    index: nat,
    found: Seq<VulkanDistributedActivationRange>,
) -> Result<Seq<VulkanDistributedActivationRange>, Seq<char>>
    decreases source.auxiliary_input_ranges.len() - index,
{
    if index >= source.auxiliary_input_ranges.len() {
        Ok(found)
    } else {
        match scaled_range(
            dispatch,
            source.row_count,
            rows,
            source.auxiliary_input_ranges[index as int],
            dispatch.auxiliary_input_distributions[index as int],
            "auxiliary input range"@,
        ) {
            Err(message) => Err(message),
            Ok(range) => scaled_auxiliary_from(
                dispatch,
                source,
                rows,
                index + 1,
                found.push(range),
            ),
        }
    }
}

fn scale_auxiliary(
    dispatch: &VulkanDistributedDispatchPlan,
    source: &VulkanDistributedDispatchShard,
    rows: usize,
) -> (outcome: Result<Vec<VulkanDistributedActivationRange>, VulkanDistributedPlanError>)
    requires
        source.row_count > 0,
        source.auxiliary_input_ranges.len() == dispatch.auxiliary_input_distributions.len(),
    ensures
        plan_agrees(
            outcome,
            scaled_auxiliary_from(dispatch.deep_view(), source.deep_view(), rows, 0, Seq::empty()),
        ),
{
    let ghost model = dispatch.deep_view();
    let ghost shard = source.deep_view();
    let mut ranges: Vec<VulkanDistributedActivationRange> = Vec::new();
    assert(ranges.deep_view() =~= Seq::empty());
    for index in 0..source.auxiliary_input_ranges.len()
        invariant
            source.row_count > 0,
            source.auxiliary_input_ranges.len() == dispatch.auxiliary_input_distributions.len(),
            model == dispatch.deep_view(),
            shard == source.deep_view(),
            scaled_auxiliary_from(model, shard, rows, 0, Seq::empty()) == scaled_auxiliary_from(
                model,
                shard,
                rows,
                index as nat,
                ranges.deep_view(),
            ),
    {
        assert(shard.auxiliary_input_ranges[index as int]
            == source.auxiliary_input_ranges@[index as int]);
        assert(model.auxiliary_input_distributions[index as int]
            == dispatch.auxiliary_input_distributions@[index as int]);
        match scale_range(
            dispatch,
            source.row_count,
            rows,
            source.auxiliary_input_ranges[index],
            dispatch.auxiliary_input_distributions[index],
            "auxiliary input range",
        ) {
            Err(error) => {
                return Err(error);
            },
            Ok(range) => {
                append(&mut ranges, range);
            },
        }
    }
    Ok(ranges)
}

/// Adds a fragment for fewer rows.
pub open spec fn scaled_fragment_step(
    dispatch: VulkanDistributedDispatchPlanModel,
    source_rows: usize,
    rows: usize,
) -> spec_fn(
    Seq<VulkanDistributedParameterFragmentModel>,
    VulkanDistributedParameterFragmentModel,
) -> Result<Seq<VulkanDistributedParameterFragmentModel>, Seq<char>> {
    |found: Seq<VulkanDistributedParameterFragmentModel>,
        fragment: VulkanDistributedParameterFragmentModel|
        match scaled(dispatch, source_rows, rows, fragment.byte_count, "parameter fragment"@) {
            Err(message) => Err(message),
            Ok(byte_count) => Ok(
                found.push(VulkanDistributedParameterFragmentModel { byte_count, ..fragment }),
            ),
        }
}

fn scale_fragments(
    dispatch: &VulkanDistributedDispatchPlan,
    source_rows: usize,
    rows: usize,
    fragments: &Vec<VulkanDistributedParameterFragment>,
) -> (outcome: Result<Vec<VulkanDistributedParameterFragment>, VulkanDistributedPlanError>)
    requires
        source_rows > 0,
    ensures
        plan_agrees(
            outcome,
            fold_from(
                fragments.deep_view(),
                0,
                Seq::empty(),
                scaled_fragment_step(dispatch.deep_view(), source_rows, rows),
            ),
        ),
{
    let ghost all = fragments.deep_view();
    let ghost step = scaled_fragment_step(dispatch.deep_view(), source_rows, rows);
    let mut scaled_fragments: Vec<VulkanDistributedParameterFragment> = Vec::new();
    assert(scaled_fragments.deep_view() =~= Seq::empty());
    for index in 0..fragments.len()
        invariant
            source_rows > 0,
            all == fragments.deep_view(),
            step == scaled_fragment_step(dispatch.deep_view(), source_rows, rows),
            fold_from(all, 0, Seq::empty(), step) == fold_from(
                all,
                index as nat,
                scaled_fragments.deep_view(),
                step,
            ),
    {
        let fragment = &fragments[index];
        assert(all[index as int] == fragment.deep_view());
        match scale(dispatch, source_rows, rows, fragment.byte_count, "parameter fragment") {
            Err(error) => {
                return Err(error);
            },
            Ok(byte_count) => {
                append(
                    &mut scaled_fragments,
                    VulkanDistributedParameterFragment {
                        binding: fragment.binding,
                        tensor: fragment.tensor.clone(),
                        byte_offset: fragment.byte_offset,
                        byte_count,
                    },
                );
            },
        }
    }
    Ok(scaled_fragments)
}

/// The output bytes, workgroups and auxiliary ranges of a sampled shard, or the text
/// of the error.
pub open spec fn sampled_outputs(
    dispatch: VulkanDistributedDispatchPlanModel,
    source: VulkanDistributedDispatchShardModel,
    rows: usize,
) -> Result<(usize, u32, Seq<VulkanDistributedActivationRange>), Seq<char>> {
    match dispatch.distribution {
        VulkanDistributedDispatchDistribution::OutputRows => match scaled(
            dispatch,
            source.row_count,
            rows,
            source.output_byte_count,
            "output range"@,
        ) {
            Err(message) => Err(message),
            Ok(output) => match scaled(
                dispatch,
                source.row_count,
                rows,
                source.workgroup_count_x as usize,
                "workgroup count"@,
            ) {
                Err(message) => Err(message),
                Ok(workgroups) => if workgroups > u32::MAX {
                    Err("sampled distributed workgroup count exceeds u32"@)
                } else {
                    match scaled_auxiliary_from(dispatch, source, rows, 0, Seq::empty()) {
                        Err(message) => Err(message),
                        Ok(auxiliary) => Ok((output, workgroups as u32, auxiliary)),
                    }
                },
            },
        },
        VulkanDistributedDispatchDistribution::InputColumns => match scaled_auxiliary_from(
            dispatch,
            source,
            rows,
            0,
            Seq::empty(),
        ) {
            Err(message) => Err(message),
            Ok(auxiliary) => Ok((source.output_byte_count, source.workgroup_count_x, auxiliary)),
        },
        VulkanDistributedDispatchDistribution::ExpertRange => Ok(
            (source.output_byte_count, source.workgroup_count_x, source.auxiliary_input_ranges),
        ),
    }
}

/// A shard with a fraction of its rows on another device, or the text of the error.
pub open spec fn sampled_shard(
    dispatch: VulkanDistributedDispatchPlanModel,
    source: VulkanDistributedDispatchShardModel,
    device_id: Seq<char>,
    numerator: usize,
    denominator: usize,
) -> Result<VulkanDistributedDispatchShardModel, Seq<char>> {
    if source.row_count == 0 || source.workgroup_count_x == 0 || dispatch.row_alignment == 0 {
        Err(
            "distributed dispatch "@ + dispatch_name(dispatch) + " has invalid shard geometry"@,
        )
    } else {
        match sampled_rows(dispatch.row_alignment, source.row_count, numerator, denominator) {
            Err(message) => Err(message),
            Ok(rows) => match scaled_range(
                dispatch,
                source.row_count,
                rows,
                source.input_range,
                dispatch.input_distribution,
                "primary input range"@,
            ) {
                Err(message) => Err(message),
                Ok(input_range) => if source.auxiliary_input_ranges.len()
                    != dispatch.auxiliary_input_distributions.len() {
                    Err(
                        "distributed dispatch "@ + dispatch_name(dispatch) + " has "@
                            + decimal_text(source.auxiliary_input_ranges.len())
                            + " sampled auxiliary ranges for "@ + decimal_text(
                            dispatch.auxiliary_input_distributions.len(),
                        ) + " declared distributions"@,
                    )
                } else {
                    match sampled_outputs(dispatch, source, rows) {
                        Err(message) => Err(message),
                        Ok((output, workgroups, auxiliary)) => match fold_from(
                            source.parameters,
                            0,
                            Seq::empty(),
                            scaled_fragment_step(dispatch, source.row_count, rows),
                        ) {
                            Err(message) => Err(message),
                            Ok(parameters) => Ok(
                                VulkanDistributedDispatchShardModel {
                                    device_id,
                                    selected_resource_indices: Map::empty(),
                                    selected_resource_fragments: Map::empty(),
                                    row_start: source.row_start,
                                    row_count: rows,
                                    workgroup_count_x: workgroups,
                                    base_workgroup_z: source.base_workgroup_z,
                                    input_range,
                                    auxiliary_input_ranges: auxiliary,
                                    output_byte_offset: source.output_byte_offset,
                                    output_byte_count: output,
                                    parameters,
                                },
                            ),
                        },
                    }
                },
            },
        }
    }
}

/// Samples a fraction of the rows of a shard.
pub fn sampled_distributed_dispatch_shard(
    dispatch: &VulkanDistributedDispatchPlan,
    source: &VulkanDistributedDispatchShard,
    device_id: &String,
    numerator: usize,
    denominator: usize,
) -> (outcome: Result<VulkanDistributedDispatchShard, VulkanDistributedPlanError>)
    requires
        denominator > 0,
    ensures
        plan_agrees(
            outcome,
            sampled_shard(
                dispatch.deep_view(),
                source.deep_view(),
                device_id@,
                numerator,
                denominator,
            ),
        ),
{
    if source.row_count == 0 || source.workgroup_count_x == 0 || dispatch.row_alignment == 0 {
        return Err(
            VulkanDistributedPlanError(
                join3(
                    "distributed dispatch ",
                    name_of(dispatch).as_str(),
                    " has invalid shard geometry",
                ),
            ),
        );
    }
    let row_count: usize = match sample_rows(
        dispatch.row_alignment,
        source.row_count,
        numerator,
        denominator,
    ) {
        Err(error) => {
            return Err(error);
        },
        Ok(rows) => rows,
    };
    let input_range = match scale_range(
        dispatch,
        source.row_count,
        row_count,
        source.input_range,
        dispatch.input_distribution,
        "primary input range",
    ) {
        Err(error) => {
            return Err(error);
        },
        Ok(range) => range,
    };
    if source.auxiliary_input_ranges.len() != dispatch.auxiliary_input_distributions.len() {
        return Err(
            VulkanDistributedPlanError(
                join7(
                    "distributed dispatch ",
                    name_of(dispatch).as_str(),
                    " has ",
                    decimal(source.auxiliary_input_ranges.len()).as_str(),
                    " sampled auxiliary ranges for ",
                    decimal(dispatch.auxiliary_input_distributions.len()).as_str(),
                    " declared distributions",
                ),
            ),
        );
    }
    let (output_byte_count, workgroup_count_x, auxiliary_input_ranges): (
        usize,
        u32,
        Vec<VulkanDistributedActivationRange>,
    ) = match dispatch.distribution {
        VulkanDistributedDispatchDistribution::OutputRows => {
            let output: usize = match scale(
                dispatch,
                source.row_count,
                row_count,
                source.output_byte_count,
                "output range",
            ) {
                Err(error) => {
                    return Err(error);
                },
                Ok(output) => output,
            };
            let workgroups: usize = match scale(
                dispatch,
                source.row_count,
                row_count,
                source.workgroup_count_x as usize,
                "workgroup count",
            ) {
                Err(error) => {
                    return Err(error);
                },
                Ok(workgroups) => workgroups,
            };
            if workgroups > u32::MAX as usize {
                return Err(
                    VulkanDistributedPlanError(
                        "sampled distributed workgroup count exceeds u32".to_owned(),
                    ),
                );
            }
            match scale_auxiliary(dispatch, source, row_count) {
                Err(error) => {
                    return Err(error);
                },
                Ok(auxiliary) => (output, workgroups as u32, auxiliary),
            }
        },
        VulkanDistributedDispatchDistribution::InputColumns => {
            match scale_auxiliary(dispatch, source, row_count) {
                Err(error) => {
                    return Err(error);
                },
                Ok(auxiliary) => (source.output_byte_count, source.workgroup_count_x, auxiliary),
            }
        },
        VulkanDistributedDispatchDistribution::ExpertRange => (
            source.output_byte_count,
            source.workgroup_count_x,
            source.auxiliary_input_ranges.duplicate(),
        ),
    };
    let parameters = match scale_fragments(
        dispatch,
        source.row_count,
        row_count,
        &source.parameters,
    ) {
        Err(error) => {
            return Err(error);
        },
        Ok(parameters) => parameters,
    };
    Ok(
        VulkanDistributedDispatchShard {
            device_id: device_id.clone(),
            selected_resource_indices: OrderedMap::new(),
            selected_resource_fragments: OrderedMap::new(),
            row_start: source.row_start,
            row_count,
            workgroup_count_x,
            base_workgroup_z: source.base_workgroup_z,
            input_range,
            auxiliary_input_ranges,
            output_byte_offset: source.output_byte_offset,
            output_byte_count,
            parameters,
        },
    )
}

/// The shards that are sampled: one for all where there is one participant, else
/// those of the dispatch; or the text of the error.
pub open spec fn sample_sources(
    dispatch: VulkanDistributedDispatchPlanModel,
    participants: nat,
) -> Result<Seq<VulkanDistributedDispatchShardModel>, Seq<char>> {
    if participants == 1 {
        match merged_shard(dispatch) {
            Err(message) => Err(message),
            Ok(shard) => Ok(seq![shard]),
        }
    } else {
        Ok(dispatch.shards)
    }
}

/// The sampled shards of participants from one on, behind those found already; or the
/// text of the error.
pub open spec fn sampled_shards_from(
    dispatch: VulkanDistributedDispatchPlanModel,
    sources: Seq<VulkanDistributedDispatchShardModel>,
    participants: Seq<Seq<char>>,
    fraction: usize,
    index: nat,
    found: Seq<VulkanDistributedDispatchShardModel>,
) -> Result<Seq<VulkanDistributedDispatchShardModel>, Seq<char>>
    decreases sources.len() - index,
{
    if index >= sources.len() || index >= participants.len() {
        Ok(found)
    } else {
        match sampled_shard(
            dispatch,
            sources[index as int],
            participants[index as int],
            smaller(fraction as int, SAMPLE_SCALE as int) as usize,
            SAMPLE_SCALE,
        ) {
            Err(message) => Err(message),
            Ok(shard) => sampled_shards_from(
                dispatch,
                sources,
                participants,
                fraction,
                index + 1,
                found.push(shard),
            ),
        }
    }
}

/// A dispatch with a fraction of its rows on the participants, or the text of the
/// error.
pub open spec fn sampled_dispatch(
    dispatch: VulkanDistributedDispatchPlanModel,
    participants: Seq<Seq<char>>,
    fraction: usize,
) -> Result<VulkanDistributedDispatchPlanModel, Seq<char>> {
    match sample_sources(dispatch, participants.len()) {
        Err(message) => Err(message),
        Ok(sources) => match sampled_shards_from(
            dispatch,
            sources,
            participants,
            fraction,
            0,
            Seq::empty(),
        ) {
            Err(message) => Err(message),
            Ok(shards) => if shards.len() != participants.len() {
                Err(
                    "distributed dispatch "@ + dispatch_name(dispatch) + " has "@ + decimal_text(
                        dispatch.shards.len(),
                    ) + " physical shards but "@ + decimal_text(participants.len())
                        + " participants were requested"@,
                )
            } else if sum_of(all_fragments(shards), fragment_bytes()) > usize::MAX {
                Err("sampled distributed parameter bytes overflowed"@)
            } else {
                Ok(
                    VulkanDistributedDispatchPlanModel {
                        owner_device_id: participants[0],
                        distributed_parameter_byte_count: sum_of(
                            all_fragments(shards),
                            fragment_bytes(),
                        ) as usize,
                        shards,
                        ..dispatch
                    },
                )
            },
        },
    }
}

fn sample_dispatch(
    dispatch: &VulkanDistributedDispatchPlan,
    participant_device_ids: &Vec<String>,
    fraction_millionths: usize,
) -> (outcome: Result<VulkanDistributedDispatchPlan, VulkanDistributedPlanError>)
    requires
        participant_device_ids.len() > 0,
    ensures
        plan_agrees(
            outcome,
            sampled_dispatch(
                dispatch.deep_view(),
                participant_device_ids.deep_view(),
                fraction_millionths,
            ),
        ),
{
    let ghost model = dispatch.deep_view();
    let ghost participants = participant_device_ids.deep_view();
    let mut merged: Vec<VulkanDistributedDispatchShard> = Vec::new();
    assert(merged.deep_view() =~= Seq::empty());
    if participant_device_ids.len() == 1 {
        match merged_distributed_dispatch_shard(dispatch) {
            Err(error) => {
                return Err(error);
            },
            Ok(shard) => {
                append(&mut merged, shard);
                assert(merged.deep_view() =~= seq![merged_shard(model)->Ok_0]);
            },
        }
    }
    let sources: &Vec<VulkanDistributedDispatchShard> = if participant_device_ids.len() == 1 {
        &merged
    } else {
        &dispatch.shards
    };
    let ghost all = sources.deep_view();
    assert(sample_sources(model, participants.len()) == Ok::<
        Seq<VulkanDistributedDispatchShardModel>,
        Seq<char>,
    >(all));
    let numerator: usize = if fraction_millionths <= SAMPLE_SCALE {
        fraction_millionths
    } else {
        SAMPLE_SCALE
    };
    let mut selected: Vec<VulkanDistributedDispatchShard> = Vec::new();
    assert(selected.deep_view() =~= Seq::empty());
    let ghost expected = sampled_dispatch(model, participants, fraction_millionths);
    let mut index: usize = 0;
    while index < sources.len() && index < participant_device_ids.len()
        invariant
            model == dispatch.deep_view(),
            participants == participant_device_ids.deep_view(),
            all == sources.deep_view(),
            index <= sources.len(),
            numerator == smaller(fraction_millionths as int, SAMPLE_SCALE as int),
            sample_sources(model, participants.len()) == Ok::<
                Seq<VulkanDistributedDispatchShardModel>,
                Seq<char>,
            >(all),
            expected == sampled_dispatch(model, participants, fraction_millionths),
            sampled_shards_from(
                model,
                all,
                participants,
                fraction_millionths,
                0,
                Seq::empty(),
            ) == sampled_shards_from(
                model,
                all,
                participants,
                fraction_millionths,
                index as nat,
                selected.deep_view(),
            ),
        decreases sources.len() - index,
    {
        assert(all[index as int] == sources@[index as int].deep_view());
        assert(participants[index as int] == participant_device_ids@[index as int]@);
        match sampled_distributed_dispatch_shard(
            dispatch,
            &sources[index],
            &participant_device_ids[index],
            numerator,
            SAMPLE_SCALE,
        ) {
            Err(error) => {
                return Err(error);
            },
            Ok(shard) => {
                append(&mut selected, shard);
            },
        }
        index += 1;
    }
    if selected.len() != participant_device_ids.len() {
        return Err(
            VulkanDistributedPlanError(
                join7(
                    "distributed dispatch ",
                    name_of(dispatch).as_str(),
                    " has ",
                    decimal(dispatch.shards.len()).as_str(),
                    " physical shards but ",
                    decimal(participant_device_ids.len()).as_str(),
                    " participants were requested",
                ),
            ),
        );
    }
    let fragments = list_fragments(&selected);
    let bytes: usize = match total_fragment_bytes(&fragments) {
        None => {
            return Err(
                VulkanDistributedPlanError(
                    "sampled distributed parameter bytes overflowed".to_owned(),
                ),
            );
        },
        Some(bytes) => bytes,
    };
    assert(participants[0] == participant_device_ids@[0]@);
    let mut sampled = dispatch.duplicate();
    sampled.owner_device_id = participant_device_ids[0].clone();
    sampled.distributed_parameter_byte_count = bytes;
    sampled.shards = selected;
    Ok(sampled)
}

/// Adds a sampled dispatch.
pub open spec fn sample_step(participants: Seq<Seq<char>>, fraction: usize) -> spec_fn(
    Seq<VulkanDistributedDispatchPlanModel>,
    VulkanDistributedDispatchPlanModel,
) -> Result<Seq<VulkanDistributedDispatchPlanModel>, Seq<char>> {
    |found: Seq<VulkanDistributedDispatchPlanModel>, dispatch: VulkanDistributedDispatchPlanModel|
        match sampled_dispatch(dispatch, participants, fraction) {
            Err(message) => Err(message),
            Ok(sampled) => Ok(found.push(sampled)),
        }
}

/// The distributed parameter bytes of a dispatch.
pub open spec fn dispatch_bytes() -> spec_fn(VulkanDistributedDispatchPlanModel) -> nat {
    |dispatch: VulkanDistributedDispatchPlanModel| dispatch.distributed_parameter_byte_count as nat
}

/// A plan with a fraction of its rows on the participants, or the text of the error.
pub open spec fn sampled_plan(
    source: VulkanDistributedExecutionPlanModel,
    participants: Seq<Seq<char>>,
    fraction: usize,
) -> Result<VulkanDistributedExecutionPlanModel, Seq<char>> {
    match fold_from(source.dispatches, 0, Seq::empty(), sample_step(participants, fraction)) {
        Err(message) => Err(message),
        Ok(dispatches) => if sum_of(dispatches, dispatch_bytes()) > usize::MAX {
            Err("sampled distributed parameter total overflowed"@)
        } else {
            match resolved_islands(
                dispatches,
                source.shared_activation_route,
                ExecutionPhase::Decode,
            ) {
                Err(message) => Err(message),
                Ok(execution_islands) => Ok(
                    VulkanDistributedExecutionPlanModel {
                        device_ids: participants,
                        dispatches,
                        execution_islands,
                        distributed_parameter_byte_count: sum_of(
                            dispatches,
                            dispatch_bytes(),
                        ) as usize,
                        ..source
                    },
                ),
            }
        },
    }
}

fn total_dispatch_bytes(dispatches: &Vec<VulkanDistributedDispatchPlan>) -> (total: Option<usize>)
    ensures
        match total {
            Some(bytes) => bytes == sum_of(dispatches.deep_view(), dispatch_bytes()),
            None => sum_of(dispatches.deep_view(), dispatch_bytes()) > usize::MAX,
        },
{
    let ghost all = dispatches.deep_view();
    let ghost measure = dispatch_bytes();
    let mut total: usize = 0;
    for index in 0..dispatches.len()
        invariant
            all == dispatches.deep_view(),
            measure == dispatch_bytes(),
            total == sum_of(all.take(index as int), measure),
    {
        proof {
            lemma_sum_step(all, measure, index as int);
            lemma_sum_prefix(all, measure, index as int + 1);
            assert(all[index as int] == dispatches@[index as int].deep_view());
        }
        match total.checked_add(dispatches[index].distributed_parameter_byte_count) {
            None => {
                return None;
            },
            Some(sum) => {
                total = sum;
            },
        }
    }
    assert(all.take(all.len() as int) =~= all);
    Some(total)
}

/// Samples a fraction of the rows of every dispatch of a plan.
pub fn sampled_distributed_execution_plan(
    source: &VulkanDistributedExecutionPlan,
    participant_device_ids: &Vec<String>,
    fraction_millionths: usize,
) -> (outcome: Result<VulkanDistributedExecutionPlan, VulkanDistributedPlanError>)
    requires
        participant_device_ids.len() > 0 || source.dispatches.len() == 0,
    ensures
        plan_agrees(
            outcome,
            sampled_plan(
                source.deep_view(),
                participant_device_ids.deep_view(),
                fraction_millionths,
            ),
        ),
{
    let ghost all = source.deep_view().dispatches;
    let ghost participants = participant_device_ids.deep_view();
    let ghost step = sample_step(participants, fraction_millionths);
    let mut dispatches: Vec<VulkanDistributedDispatchPlan> = Vec::new();
    assert(dispatches.deep_view() =~= Seq::empty());
    for index in 0..source.dispatches.len()
        invariant
            participant_device_ids.len() > 0 || source.dispatches.len() == 0,
            all == source.deep_view().dispatches,
            participants == participant_device_ids.deep_view(),
            step == sample_step(participants, fraction_millionths),
            fold_from(all, 0, Seq::empty(), step) == fold_from(
                all,
                index as nat,
                dispatches.deep_view(),
                step,
            ),
    {
        assert(all[index as int] == source.dispatches@[index as int].deep_view());
        match sample_dispatch(
            &source.dispatches[index],
            participant_device_ids,
            fraction_millionths,
        ) {
            Err(error) => {
                return Err(error);
            },
            Ok(sampled) => {
                append(&mut dispatches, sampled);
            },
        }
    }
    let bytes: usize = match total_dispatch_bytes(&dispatches) {
        None => {
            return Err(
                VulkanDistributedPlanError(
                    "sampled distributed parameter total overflowed".to_owned(),
                ),
            );
        },
        Some(bytes) => bytes,
    };
    let sampled = dispatches.as_slice();
    assert(sampled.deep_view() =~= dispatches.deep_view());
    let execution_islands = match resolved_physical_execution_islands(
        sampled,
        source.shared_activation_route,
    ) {
        Err(error) => {
            return Err(error);
        },
        Ok(islands) => islands,
    };
    Ok(
        VulkanDistributedExecutionPlan {
            device_ids: participant_device_ids.duplicate(),
            storage_buffer_offset_alignment: source.storage_buffer_offset_alignment,
            dispatches,
            execution_islands,
            shared_activation_route: source.shared_activation_route,
            shared_input_byte_capacity: source.shared_input_byte_capacity,
            shared_output_byte_capacity: source.shared_output_byte_capacity,
            distributed_parameter_byte_count: bytes,
        },
    )
}

/// The parameter bytes of a fraction of a plan, or the text of the error.
#[verifier::opaque]
pub open spec fn sampled_bytes(
    source: VulkanDistributedExecutionPlanModel,
    tensors: TensorIndexModel,
    participants: Seq<Seq<char>>,
    fraction: usize,
) -> Result<usize, Seq<char>> {
    match sampled_plan(source, participants, fraction) {
        Err(message) => Err(message),
        Ok(plan) => match execution_parameters(plan, tensors, false) {
            Err(message) => Err(message),
            Ok(parameters) => Ok(parameters.total_byte_capacity),
        },
    }
}

/// The fraction between two that a bisection finds: it keeps the lower half where the
/// bytes of the middle exceed the budget; or the text of the error.
pub open spec fn bisected(
    source: VulkanDistributedExecutionPlanModel,
    tensors: TensorIndexModel,
    participants: Seq<Seq<char>>,
    budget: usize,
    low: usize,
    high: usize,
) -> Result<usize, Seq<char>>
    decreases high - low,
{
    if low >= high {
        Ok(low)
    } else {
        let middle = (low + (high - low + 1) / 2) as usize;
        match sampled_bytes(source, tensors, participants, middle) {
            Err(message) => Err(message),
            Ok(bytes) => if bytes <= budget {
                bisected(source, tensors, participants, budget, middle, high)
            } else {
                bisected(source, tensors, participants, budget, low, (middle - 1) as usize)
            },
        }
    }
}

/// The participants are named, each once.
pub open spec fn distinct_participants(participants: Seq<Seq<char>>) -> bool {
    participants.len() > 0 && device_pool_fault_from(participants, 0) is None
}

/// The largest sample of a plan within a parameter budget, none where even the
/// smallest exceeds it, or the text of the error.
pub open spec fn budgeted_plan(
    source: VulkanDistributedExecutionPlanModel,
    tensors: TensorIndexModel,
    participants: Seq<Seq<char>>,
    budget: usize,
) -> Result<Option<VulkanDistributedExecutionPlanModel>, Seq<char>> {
    if !distinct_participants(participants) || budget == 0 {
        Err(
            "sampled distributed execution requires distinct participants and a positive total parameter budget"@,
        )
    } else if source.dispatches.len() == 0 {
        Ok(None)
    } else {
        match sampled_bytes(source, tensors, participants, 0) {
            Err(message) => Err(message),
            Ok(minimum) => if minimum > budget {
                Ok(None)
            } else {
                match bisected(source, tensors, participants, budget, 0, SAMPLE_SCALE) {
                    Err(message) => Err(message),
                    Ok(fraction) => match sampled_plan(source, participants, fraction) {
                        Err(message) => Err(message),
                        Ok(plan) => Ok(Some(plan)),
                    },
                }
            },
        }
    }
}

fn measure_sample(
    source: &VulkanDistributedExecutionPlan,
    tensor_index: &TensorIndex,
    participant_device_ids: &Vec<String>,
    fraction_millionths: usize,
) -> (outcome: Result<usize, VulkanDistributedPlanError>)
    requires
        participant_device_ids.len() > 0,
    ensures
        plan_agrees(
            outcome,
            sampled_bytes(
                source.deep_view(),
                tensor_index.deep_view(),
                participant_device_ids.deep_view(),
                fraction_millionths,
            ),
        ),
{
    proof {
        reveal(sampled_bytes);
    }
    match sampled_distributed_execution_plan(source, participant_device_ids, fraction_millionths) {
        Err(error) => Err(error),
        Ok(plan) => match VulkanDistributedParameterAllocationPlan::from_sampled_execution_plan(
            &plan,
            tensor_index,
        ) {
            Err(error) => Err(error),
            Ok(parameters) => Ok(parameters.total_byte_capacity),
        },
    }
}

impl VulkanDistributedExecutionPlan {
    /// Retains an aligned, representative subset of every distributed dispatch while
    /// keeping one total parameter budget across all participants. The resulting plan
    /// keeps the shaders and descriptor contracts; only the dispatched output-row or
    /// expert ranges are reduced.
    pub fn sampled_for_parameter_budget(
        &self,
        tensor_index: &TensorIndex,
        participant_device_ids: &Vec<String>,
        maximum_total_parameter_bytes: usize,
    ) -> (outcome: Result<Option<Self>, VulkanDistributedPlanError>)
        ensures
            plan_agrees(
                outcome,
                budgeted_plan(
                    self.deep_view(),
                    tensor_index.deep_view(),
                    participant_device_ids.deep_view(),
                    maximum_total_parameter_bytes,
                ),
            ),
    {
        let ghost source = self.deep_view();
        let ghost tensors = tensor_index.deep_view();
        let ghost participants = participant_device_ids.deep_view();
        let ghost budget = maximum_total_parameter_bytes;
        let pool = participant_device_ids.as_slice();
        assert(pool.deep_view() =~= participants);
        let valid: bool = match validate_device_pool(pool) {
            Ok(_) => true,
            Err(_) => false,
        };
        if !valid || maximum_total_parameter_bytes == 0 {
            return Err(
                VulkanDistributedPlanError(
                    "sampled distributed execution requires distinct participants and a positive total parameter budget".to_owned(),
                ),
            );
        }
        if self.dispatches.len() == 0 {
            return Ok(None);
        }
        let minimum_bytes: usize = match measure_sample(
            self,
            tensor_index,
            participant_device_ids,
            0,
        ) {
            Err(error) => {
                return Err(error);
            },
            Ok(bytes) => bytes,
        };
        if minimum_bytes > maximum_total_parameter_bytes {
            return Ok(None);
        }
        let ghost expected = budgeted_plan(source, tensors, participants, budget);
        let mut low: usize = 0;
        let mut high: usize = SAMPLE_SCALE;
        while low < high
            invariant
                source == self.deep_view(),
                tensors == tensor_index.deep_view(),
                participants == participant_device_ids.deep_view(),
                budget == maximum_total_parameter_bytes,
                participant_device_ids.len() > 0,
                high <= SAMPLE_SCALE,
                expected == budgeted_plan(source, tensors, participants, budget),
                expected == (match bisected(source, tensors, participants, budget, 0, SAMPLE_SCALE) {
                    Err(message) => Err::<
                        Option<VulkanDistributedExecutionPlanModel>,
                        Seq<char>,
                    >(message),
                    Ok(fraction) => match sampled_plan(source, participants, fraction) {
                        Err(message) => Err(message),
                        Ok(plan) => Ok(Some(plan)),
                    },
                }),
                bisected(source, tensors, participants, budget, 0, SAMPLE_SCALE) == bisected(
                    source,
                    tensors,
                    participants,
                    budget,
                    low,
                    high,
                ),
            decreases high - low,
        {
            let middle: usize = low + (high - low + 1) / 2;
            let bytes: usize = match measure_sample(
                self,
                tensor_index,
                participant_device_ids,
                middle,
            ) {
                Err(error) => {
                    return Err(error);
                },
                Ok(bytes) => bytes,
            };
            if bytes <= maximum_total_parameter_bytes {
                low = middle;
            } else {
                high = middle - 1;
            }
        }
        match sampled_distributed_execution_plan(self, participant_device_ids, low) {
            Err(error) => Err(error),
            Ok(plan) => Ok(Some(plan)),
        }
    }
}

proof fn lemma_bisection_fits(
    source: VulkanDistributedExecutionPlanModel,
    tensors: TensorIndexModel,
    participants: Seq<Seq<char>>,
    budget: usize,
    low: usize,
    high: usize,
)
    requires
        low <= high < usize::MAX,
        sampled_bytes(source, tensors, participants, low) is Ok,
        sampled_bytes(source, tensors, participants, low)->Ok_0 <= budget,
        high == SAMPLE_SCALE || (sampled_bytes(
            source,
            tensors,
            participants,
            (high + 1) as usize,
        ) is Ok && sampled_bytes(source, tensors, participants, (high + 1) as usize)->Ok_0
            > budget),
        bisected(source, tensors, participants, budget, low, high) is Ok,
    ensures
        ({
            let fraction = bisected(source, tensors, participants, budget, low, high)->Ok_0;
            &&& low <= fraction <= high
            &&& sampled_bytes(source, tensors, participants, fraction) is Ok
            &&& sampled_bytes(source, tensors, participants, fraction)->Ok_0 <= budget
            &&& fraction == SAMPLE_SCALE || (sampled_bytes(
                source,
                tensors,
                participants,
                (fraction + 1) as usize,
            ) is Ok && sampled_bytes(
                source,
                tensors,
                participants,
                (fraction + 1) as usize,
            )->Ok_0 > budget)
        }),
    decreases high - low,
{
    if low < high {
        let middle = (low + (high - low + 1) / 2) as usize;
        if sampled_bytes(source, tensors, participants, middle)->Ok_0 <= budget {
            lemma_bisection_fits(source, tensors, participants, budget, middle, high);
        } else {
            lemma_bisection_fits(
                source,
                tensors,
                participants,
                budget,
                low,
                (middle - 1) as usize,
            );
        }
    }
}

/// A sampled plan keeps its parameter budget: the bytes of its parameters are at most
/// the budget. It is a fraction of the rows after which the next larger fraction
/// exceeds the budget, or all of them.
pub proof fn law_samples_keep_the_budget(
    source: VulkanDistributedExecutionPlanModel,
    tensors: TensorIndexModel,
    participants: Seq<Seq<char>>,
    budget: usize,
) -> (fraction: usize)
    requires
        budgeted_plan(source, tensors, participants, budget) is Ok,
        budgeted_plan(source, tensors, participants, budget)->Ok_0 is Some,
    ensures
        fraction <= SAMPLE_SCALE,
        ({
            let plan = budgeted_plan(source, tensors, participants, budget)->Ok_0->0;
            &&& sampled_plan(source, participants, fraction) == Ok::<
                VulkanDistributedExecutionPlanModel,
                Seq<char>,
            >(plan)
            &&& execution_parameters(plan, tensors, false) is Ok
            &&& execution_parameters(plan, tensors, false)->Ok_0.total_byte_capacity <= budget
            &&& fraction == SAMPLE_SCALE || (sampled_bytes(
                source,
                tensors,
                participants,
                (fraction + 1) as usize,
            ) is Ok && sampled_bytes(
                source,
                tensors,
                participants,
                (fraction + 1) as usize,
            )->Ok_0 > budget)
        }),
{
    lemma_bisection_fits(source, tensors, participants, budget, 0, SAMPLE_SCALE);
    reveal(sampled_bytes);
    bisected(source, tensors, participants, budget, 0, SAMPLE_SCALE)->Ok_0
}

/// A sampled shard executes at least one row and at most those of its source, at the
/// same start; where it does not keep all rows, it keeps whole aligned groups.
pub proof fn law_sampled_rows_are_aligned(
    row_alignment: usize,
    row_count: usize,
    numerator: usize,
    denominator: usize,
)
    requires
        row_alignment > 0,
        row_count > 0,
        denominator > 0,
        sampled_rows(row_alignment, row_count, numerator, denominator) is Ok,
    ensures
        ({
            let rows = sampled_rows(row_alignment, row_count, numerator, denominator)->Ok_0;
            &&& 0 < rows <= row_count
            &&& rows == row_count || rows % row_alignment == 0
        }),
{
    let proportional = smaller((row_count * numerator) / denominator as int, row_count as int);
    assert((row_count * numerator) / denominator as int >= 0) by (nonlinear_arith)
        requires
            row_count >= 0,
            numerator >= 0,
            denominator > 0,
    ;
    assert(proportional / row_alignment as int >= 0) by (nonlinear_arith)
        requires
            proportional >= 0,
            row_alignment > 0,
    ;
    let groups = if proportional / row_alignment as int == 0 {
        1int
    } else {
        proportional / row_alignment as int
    };
    assert(groups * row_alignment >= 1) by (nonlinear_arith)
        requires
            groups >= 1,
            row_alignment >= 1,
    ;
    vstd::arithmetic::div_mod::lemma_mod_multiples_basic(groups, row_alignment as int);
}

} // verus!
