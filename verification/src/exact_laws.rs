//! Laws of replaying measured executions.
use vstd::prelude::*;

use crate::dispatch_shards::VulkanDistributedDispatchShardModel;
use crate::exact_application::{
    checked_case, covers_participants, dispatches_applied_from, exact_shard, owned_by_selector,
    participants_applied_from, replayed_component, shard_fault, with_dispatch, with_islands,
};
use crate::exact_component::DeviceIdentitiesModel;
use crate::exact_coverage::{
    coverage_fault_from, covered_from, dispatch_case_text, fragment_fault, fragment_fault_from,
    held_ranges, occurrences, owned_once, owned_resources, partition_fault, runtime_fragments,
    same_fragment, same_fragment_list, same_fragments, same_operation, same_operations,
    same_parameter, FragmentsModel,
};
use crate::exact_rebinding::{
    case_identity, contracts_from, is_place, participants_rebound_from, rebound_case,
    shards_rebound_from, VulkanExecutableIdentity, VulkanExecutableIdentityModel,
};
use crate::exact_replay::{subsets_from, was_measured};
use crate::execution_plans::{
    VulkanDistributedDispatchPlanModel, VulkanDistributedExecutionPlan,
    VulkanDistributedExecutionPlanModel, VulkanDistributedSelectedResourcePartitionPlanModel,
};
use crate::ordered::{lemma_members_listed, ordered_keys, ordered_members, ordered_values};
use crate::placement::{
    VulkanPlacementDispatchGeometryModel, VulkanPlacementExecutionCaseIdentityModel,
    VulkanPlacementOperationGeometryModel, VulkanPlacementShardIdentityModel,
};
use crate::sequences::index_from;
use crate::values::OrderedKey;

verus! {

/// Having the same operations is an equivalence.
pub proof fn law_same_operations_is_an_equivalence(
    first: Seq<VulkanPlacementOperationGeometryModel>,
    second: Seq<VulkanPlacementOperationGeometryModel>,
    third: Seq<VulkanPlacementOperationGeometryModel>,
)
    ensures
        same_operations(first, first),
        same_operations(first, second) ==> same_operations(second, first),
        same_operations(first, second) && same_operations(second, third) ==> same_operations(
            first,
            third,
        ),
{
    if same_operations(first, second) {
        assert forall|i: int| 0 <= i < second.len() implies same_operation(
            #[trigger] second[i],
            first[i],
        ) by {
            assert(same_operation(first[i], second[i]));
        }
    }
    if same_operations(first, second) && same_operations(second, third) {
        assert forall|i: int| 0 <= i < first.len() implies same_operation(
            #[trigger] first[i],
            third[i],
        ) by {
            assert(same_operation(first[i], second[i]));
            assert(same_operation(second[i], third[i]));
        }
    }
}

/// The label of the contract of a dispatch has no part in whether operations are the
/// same.
pub proof fn law_operations_are_compared_without_labels(
    geometry: VulkanPlacementDispatchGeometryModel,
    contract_id: Seq<char>,
    other: VulkanPlacementOperationGeometryModel,
)
    ensures
        same_operation(
            VulkanPlacementOperationGeometryModel::Dispatch {
                geometry: VulkanPlacementDispatchGeometryModel { contract_id, ..geometry },
            },
            other,
        ) == same_operation(VulkanPlacementOperationGeometryModel::Dispatch { geometry }, other),
{
}

/// Having the same fragments is an equivalence.
pub proof fn law_same_fragments_is_an_equivalence(
    first: FragmentsModel,
    second: FragmentsModel,
    third: FragmentsModel,
)
    ensures
        same_fragments(first, first),
        same_fragments(first, second) ==> same_fragments(second, first),
        same_fragments(first, second) && same_fragments(second, third) ==> same_fragments(
            first,
            third,
        ),
{
    assert forall|partition: usize| #[trigger] first.contains_key(partition) implies
        same_fragment_list(first[partition], first[partition]) by {
        lemma_same_list_reflexive(first[partition]);
    }
    if same_fragments(first, second) {
        assert forall|partition: usize| #[trigger] second.contains_key(partition) implies
            same_fragment_list(second[partition], first[partition]) by {
            assert(first.dom().contains(partition));
            assert(first.contains_key(partition));
            lemma_same_list_symmetric(first[partition], second[partition]);
        }
    }
    if same_fragments(first, second) && same_fragments(second, third) {
        assert forall|partition: usize| #[trigger] first.contains_key(partition) implies
            same_fragment_list(first[partition], third[partition]) by {
            assert(second.dom().contains(partition));
            assert(second.contains_key(partition));
            lemma_same_list_transitive(first[partition], second[partition], third[partition]);
        }
    }
}

/// The fragments of a partition.
type FragmentList = Seq<
    crate::placement::VulkanPlacementSelectedResourceFragmentIdentityModel,
>;

proof fn lemma_same_list_reflexive(list: FragmentList)
    ensures
        same_fragment_list(list, list),
{
}

proof fn lemma_same_list_symmetric(left: FragmentList, right: FragmentList)
    requires
        same_fragment_list(left, right),
    ensures
        same_fragment_list(right, left),
{
    assert forall|i: int| 0 <= i < right.len() implies same_fragment(
        #[trigger] right[i],
        left[i],
    ) by {
        assert(same_fragment(left[i], right[i]));
        assert forall|p: int| 0 <= p < right[i].parameters.len() implies same_parameter(
            #[trigger] right[i].parameters[p],
            left[i].parameters[p],
        ) by {
            assert(same_parameter(left[i].parameters[p], right[i].parameters[p]));
        }
    }
}

proof fn lemma_same_list_transitive(first: FragmentList, second: FragmentList, third: FragmentList)
    requires
        same_fragment_list(first, second),
        same_fragment_list(second, third),
    ensures
        same_fragment_list(first, third),
{
    assert forall|i: int| 0 <= i < first.len() implies same_fragment(
        #[trigger] first[i],
        third[i],
    ) by {
        assert(same_fragment(first[i], second[i]));
        assert(same_fragment(second[i], third[i]));
        assert forall|p: int| 0 <= p < first[i].parameters.len() implies same_parameter(
            #[trigger] first[i].parameters[p],
            third[i].parameters[p],
        ) by {
            assert(same_parameter(first[i].parameters[p], second[i].parameters[p]));
            assert(same_parameter(second[i].parameters[p], third[i].parameters[p]));
        }
    }
}

/// A partition without a fault, where the first one with a fault is looked for.
proof fn lemma_no_coverage_fault(
    dispatch: VulkanDistributedDispatchPlanModel,
    prefix: Seq<char>,
    start: nat,
    index: int,
)
    requires
        coverage_fault_from(dispatch, prefix, start) is None,
        start <= index < dispatch.selected_resource_partitions.len(),
    ensures
        partition_fault(dispatch, dispatch.selected_resource_partitions[index], prefix) is None,
    decreases dispatch.selected_resource_partitions.len() - start,
{
    if start < index {
        lemma_no_coverage_fault(dispatch, prefix, start + 1, index);
    }
}

/// A dispatch that is accepted has every resource that is owned as a whole exactly
/// once among the resources that its shards own.
pub proof fn law_whole_resources_are_owned_once(
    dispatch: VulkanDistributedDispatchPlanModel,
    component_id: Seq<char>,
    dispatch_ordinal: usize,
    partition: int,
    resource: usize,
)
    requires
        coverage_fault_from(
            dispatch,
            dispatch_case_text(component_id, dispatch_ordinal),
            0,
        ) is None,
        0 <= partition < dispatch.selected_resource_partitions.len(),
        dispatch.selected_resource_partitions[partition].parameter_partitions.len() == 0,
        resource < dispatch.selected_resource_partitions[partition].resource_count,
    ensures
        occurrences(
            owned_resources(
                dispatch.shards,
                dispatch.selected_resource_partitions[partition].selector_id,
            ),
            resource,
        ) == 1,
{
    lemma_no_coverage_fault(
        dispatch,
        dispatch_case_text(component_id, dispatch_ordinal),
        0,
        partition,
    );
    assert(owned_once(dispatch.shards, dispatch.selected_resource_partitions[partition]));
}

/// The row lies in the range.
pub open spec fn holds_row(range: (usize, (usize, usize)), row: int) -> bool {
    range.0 <= row < range.0 + range.1.0
}

proof fn lemma_covered(
    ranges: Seq<(usize, (usize, usize))>,
    index: nat,
    frontier: usize,
    gap: Seq<char>,
    row: int,
) -> (place: int)
    requires
        covered_from(ranges, index, frontier, gap) is Ok,
        index <= ranges.len(),
        frontier <= row < covered_from(ranges, index, frontier, gap)->Ok_0,
    ensures
        index <= place < ranges.len(),
        holds_row(ranges[place], row),
    decreases ranges.len() - index,
{
    let next = (frontier + ranges[index as int].1.0) as usize;
    if row < next {
        index as int
    } else {
        lemma_covered(ranges, index + 1, next, gap, row)
    }
}

proof fn lemma_covered_starts(
    ranges: Seq<(usize, (usize, usize))>,
    index: nat,
    frontier: usize,
    gap: Seq<char>,
    place: int,
)
    requires
        covered_from(ranges, index, frontier, gap) is Ok,
        index <= place < ranges.len(),
    ensures
        frontier <= ranges[place].0,
        ranges[place].0 + ranges[place].1.0 <= covered_from(ranges, index, frontier, gap)->Ok_0,
    decreases ranges.len() - index,
{
    let next = (frontier + ranges[index as int].1.0) as usize;
    if place > index {
        lemma_covered_starts(ranges, index + 1, next, gap, place);
    } else {
        lemma_covered_end(ranges, index + 1, next, gap);
    }
}

proof fn lemma_covered_end(
    ranges: Seq<(usize, (usize, usize))>,
    index: nat,
    frontier: usize,
    gap: Seq<char>,
)
    requires
        covered_from(ranges, index, frontier, gap) is Ok,
    ensures
        frontier <= covered_from(ranges, index, frontier, gap)->Ok_0,
    decreases ranges.len() - index,
{
    if index < ranges.len() {
        lemma_covered_end(
            ranges,
            index + 1,
            (frontier + ranges[index as int].1.0) as usize,
            gap,
        );
    }
}

proof fn lemma_covered_once(
    ranges: Seq<(usize, (usize, usize))>,
    index: nat,
    frontier: usize,
    gap: Seq<char>,
    first: int,
    second: int,
    row: int,
)
    requires
        covered_from(ranges, index, frontier, gap) is Ok,
        index <= first < second < ranges.len(),
        holds_row(ranges[first], row),
    ensures
        !holds_row(ranges[second], row),
    decreases ranges.len() - index,
{
    let next = (frontier + ranges[index as int].1.0) as usize;
    if first > index {
        lemma_covered_once(ranges, index + 1, next, gap, first, second, row);
    } else {
        lemma_covered_starts(ranges, index + 1, next, gap, second);
    }
}

proof fn lemma_held_finite(
    shards: Seq<VulkanDistributedDispatchShardModel>,
    selector_id: Seq<char>,
    resource_index: usize,
)
    ensures
        held_ranges(shards, selector_id, resource_index).finite(),
    decreases shards.len(),
{
    if shards.len() > 0 {
        lemma_held_finite(shards.drop_last(), selector_id, resource_index);
    }
}

proof fn lemma_no_fragment_fault(
    dispatch: VulkanDistributedDispatchPlanModel,
    partition: VulkanDistributedSelectedResourcePartitionPlanModel,
    prefix: Seq<char>,
    start: nat,
    resource: usize,
)
    requires
        fragment_fault_from(dispatch, partition, prefix, start) is None,
        start <= resource < partition.resource_count,
    ensures
        fragment_fault(dispatch, partition.selector_id, resource, prefix) is None,
    decreases partition.resource_count - start,
{
    if start < resource {
        lemma_no_fragment_fault(dispatch, partition, prefix, start + 1, resource);
    }
}

/// A dispatch that is accepted has every row of every resource that is owned in parts
/// in exactly one of the parts that its shards hold.
pub proof fn law_fragments_hold_every_row_once(
    dispatch: VulkanDistributedDispatchPlanModel,
    component_id: Seq<char>,
    dispatch_ordinal: usize,
    partition: int,
    resource: usize,
    row: int,
) -> (range: (usize, (usize, usize)))
    requires
        coverage_fault_from(
            dispatch,
            dispatch_case_text(component_id, dispatch_ordinal),
            0,
        ) is None,
        0 <= partition < dispatch.selected_resource_partitions.len(),
        dispatch.selected_resource_partitions[partition].parameter_partitions.len() > 0,
        resource < dispatch.selected_resource_partitions[partition].resource_count,
        0 <= row < dispatch.output_rows,
    ensures
        held_ranges(
            dispatch.shards,
            dispatch.selected_resource_partitions[partition].selector_id,
            resource,
        ).contains(range),
        holds_row(range, row),
        forall|other: (usize, (usize, usize))|
            held_ranges(
                dispatch.shards,
                dispatch.selected_resource_partitions[partition].selector_id,
                resource,
            ).contains(other) && #[trigger] holds_row(other, row) ==> other == range,
{
    let prefix = dispatch_case_text(component_id, dispatch_ordinal);
    let plan = dispatch.selected_resource_partitions[partition];
    lemma_no_coverage_fault(dispatch, prefix, 0, partition);
    lemma_no_fragment_fault(dispatch, plan, prefix, 0, resource);
    let held = held_ranges(dispatch.shards, plan.selector_id, resource);
    lemma_held_finite(dispatch.shards, plan.selector_id, resource);
    lemma_members_listed::<(usize, (usize, usize))>(held);
    let ranges = ordered_members::<(usize, (usize, usize))>(held);
    let gap = prefix + " leaves a fragmented selector gap for resource "@
        + crate::text::decimal_text(resource as nat);
    let place = lemma_covered(ranges, 0, 0, gap, row);
    let range = ranges[place];
    assert(ranges.to_set().contains(range));
    assert forall|other: (usize, (usize, usize))|
        held.contains(other) && #[trigger] holds_row(other, row) implies other == range by {
        assert(ranges.to_set().contains(other));
        let k = choose|k: int| 0 <= k < ranges.len() && ranges[k] == other;
        if k < place {
            lemma_covered_once(ranges, 0, 0, gap, k, place, row);
        } else if place < k {
            lemma_covered_once(ranges, 0, 0, gap, place, k, row);
        }
    }
    range
}

/// The shard is as it was but for the resources that it owns.
pub open spec fn is_same_shard(
    before: VulkanDistributedDispatchShardModel,
    after: VulkanDistributedDispatchShardModel,
) -> bool {
    after == (VulkanDistributedDispatchShardModel {
        selected_resource_indices: after.selected_resource_indices,
        ..before
    })
}

/// The dispatch is as it was but for the resources that its shards own.
pub open spec fn is_same_dispatch(
    before: VulkanDistributedDispatchPlanModel,
    after: VulkanDistributedDispatchPlanModel,
) -> bool {
    &&& after == (VulkanDistributedDispatchPlanModel { shards: after.shards, ..before })
    &&& after.shards.len() == before.shards.len()
    &&& forall|s: int|
        0 <= s < before.shards.len() ==> is_same_shard(
            before.shards[s],
            #[trigger] after.shards[s],
        )
}

/// The plan is as it was but for the resources that shards own, and its islands.
pub open spec fn is_same_plan(
    before: VulkanDistributedExecutionPlanModel,
    after: VulkanDistributedExecutionPlanModel,
) -> bool {
    &&& after == (VulkanDistributedExecutionPlanModel {
        dispatches: after.dispatches,
        execution_islands: after.execution_islands,
        ..before
    })
    &&& after.dispatches.len() == before.dispatches.len()
    &&& forall|i: int|
        0 <= i < before.dispatches.len() ==> is_same_dispatch(
            before.dispatches[i],
            #[trigger] after.dispatches[i],
        )
}

pub proof fn lemma_participants_keep(
    dispatch: VulkanDistributedDispatchPlanModel,
    component_id: Seq<char>,
    dispatch_ordinal: usize,
    shards: Seq<VulkanPlacementShardIdentityModel>,
    identities: DeviceIdentitiesModel,
    index: nat,
)
    ensures
        is_same_dispatch(
            dispatch,
            participants_applied_from(
                dispatch,
                component_id,
                dispatch_ordinal,
                shards,
                identities,
                index,
            ).0,
        ),
        forall|s: int|
            0 <= s < index && s < dispatch.shards.len() ==> (
            #[trigger] participants_applied_from(
                dispatch,
                component_id,
                dispatch_ordinal,
                shards,
                identities,
                index,
            ).0.shards[s]) == dispatch.shards[s],
        participants_applied_from(
            dispatch,
            component_id,
            dispatch_ordinal,
            shards,
            identities,
            index,
        ).1 is Ok ==> forall|s: int|
            index <= s < dispatch.shards.len() ==> (
            #[trigger] participants_applied_from(
                dispatch,
                component_id,
                dispatch_ordinal,
                shards,
                identities,
                index,
            ).0.shards[s]).selected_resource_indices == owned_by_selector(
                dispatch.selected_resource_partitions,
                exact_shard(
                    shards,
                    dispatch_ordinal,
                    s as usize,
                ).selected_resource_indices_by_partition,
            ),
    decreases dispatch.shards.len() - index,
{
    if index < dispatch.shards.len() {
        let shard = dispatch.shards[index as int];
        let exact = exact_shard(shards, dispatch_ordinal, index as usize);
        if shard_fault(
            dispatch,
            shard,
            exact,
            identities,
            component_id,
            dispatch_ordinal,
        ) is None {
            let changed = VulkanDistributedDispatchShardModel {
                selected_resource_indices: owned_by_selector(
                    dispatch.selected_resource_partitions,
                    exact.selected_resource_indices_by_partition,
                ),
                ..shard
            };
            let next = VulkanDistributedDispatchPlanModel {
                shards: dispatch.shards.update(index as int, changed),
                ..dispatch
            };
            lemma_participants_keep(
                next,
                component_id,
                dispatch_ordinal,
                shards,
                identities,
                index + 1,
            );
            let last = participants_applied_from(
                next,
                component_id,
                dispatch_ordinal,
                shards,
                identities,
                index + 1,
            ).0;
            assert forall|s: int| 0 <= s < dispatch.shards.len() implies is_same_shard(
                dispatch.shards[s],
                #[trigger] last.shards[s],
            ) by {
                assert(is_same_shard(next.shards[s], last.shards[s]));
            }
            assert(last.shards[index as int] == next.shards[index as int]);
        }
    }
}

proof fn lemma_same_dispatch_transitive(
    first: VulkanDistributedDispatchPlanModel,
    second: VulkanDistributedDispatchPlanModel,
    third: VulkanDistributedDispatchPlanModel,
)
    requires
        is_same_dispatch(first, second),
        is_same_dispatch(second, third),
    ensures
        is_same_dispatch(first, third),
{
    assert forall|s: int| 0 <= s < first.shards.len() implies is_same_shard(
        first.shards[s],
        #[trigger] third.shards[s],
    ) by {
        assert(is_same_shard(first.shards[s], second.shards[s]));
        assert(is_same_shard(second.shards[s], third.shards[s]));
    }
}

/// Plans that are the same but for ownership stay so over two changes.
pub proof fn lemma_same_plan_transitive(
    first: VulkanDistributedExecutionPlanModel,
    second: VulkanDistributedExecutionPlanModel,
    third: VulkanDistributedExecutionPlanModel,
)
    requires
        is_same_plan(first, second),
        is_same_plan(second, third),
    ensures
        is_same_plan(first, third),
{
    assert forall|i: int| 0 <= i < first.dispatches.len() implies is_same_dispatch(
        first.dispatches[i],
        #[trigger] third.dispatches[i],
    ) by {
        assert(is_same_dispatch(first.dispatches[i], second.dispatches[i]));
        assert(is_same_dispatch(second.dispatches[i], third.dispatches[i]));
        lemma_same_dispatch_transitive(
            first.dispatches[i],
            second.dispatches[i],
            third.dispatches[i],
        );
    }
}

pub proof fn lemma_dispatches_keep(
    plan: VulkanDistributedExecutionPlanModel,
    component_id: Seq<char>,
    dispatch_indices: Seq<usize>,
    shards: Seq<VulkanPlacementShardIdentityModel>,
    identities: DeviceIdentitiesModel,
    ordinal: nat,
)
    requires
        forall|i: int|
            0 <= i < dispatch_indices.len() ==> #[trigger] dispatch_indices[i]
                < plan.dispatches.len(),
    ensures
        is_same_plan(
            plan,
            dispatches_applied_from(
                plan,
                component_id,
                dispatch_indices,
                shards,
                identities,
                ordinal,
            ).0,
        ),
        dispatches_applied_from(
            plan,
            component_id,
            dispatch_indices,
            shards,
            identities,
            ordinal,
        ).0.execution_islands == plan.execution_islands,
        forall|place: int|
            0 <= place < plan.dispatches.len() && !(dispatch_indices.skip(
                ordinal as int,
            ).contains(place as usize)) ==> #[trigger] dispatches_applied_from(
                plan,
                component_id,
                dispatch_indices,
                shards,
                identities,
                ordinal,
            ).0.dispatches[place] == plan.dispatches[place],
    decreases dispatch_indices.len() - ordinal,
{
    let result = dispatches_applied_from(
        plan,
        component_id,
        dispatch_indices,
        shards,
        identities,
        ordinal,
    );
    if ordinal < dispatch_indices.len() {
        let place = dispatch_indices[ordinal as int] as int;
        let dispatch = plan.dispatches[place];
        assert(dispatch_indices.skip(ordinal as int)[0] == dispatch_indices[ordinal as int]);
        if covers_participants(shards, ordinal as usize, dispatch.shards.len()) {
            let applied = participants_applied_from(
                dispatch,
                component_id,
                ordinal as usize,
                shards,
                identities,
                0,
            );
            let next = with_dispatch(plan, place, applied.0);
            lemma_participants_keep(
                dispatch,
                component_id,
                ordinal as usize,
                shards,
                identities,
                0,
            );
            assert forall|i: int| 0 <= i < plan.dispatches.len() implies is_same_dispatch(
                plan.dispatches[i],
                #[trigger] next.dispatches[i],
            ) by {}
            if applied.1 is Ok && coverage_fault_from(
                applied.0,
                dispatch_case_text(component_id, ordinal as usize),
                0,
            ) is None {
                lemma_dispatches_keep(
                    next,
                    component_id,
                    dispatch_indices,
                    shards,
                    identities,
                    ordinal + 1,
                );
                lemma_same_plan_transitive(plan, next, result.0);
                assert forall|other: int|
                    0 <= other < plan.dispatches.len() && !(dispatch_indices.skip(
                        ordinal as int,
                    ).contains(other as usize)) implies #[trigger] result.0.dispatches[other]
                    == plan.dispatches[other] by {
                    if dispatch_indices.skip(ordinal as int + 1).contains(other as usize) {
                        let rest = dispatch_indices.skip(ordinal as int + 1);
                        let k = choose|k: int|
                            0 <= k < rest.len() && #[trigger] rest[k] == other as usize;
                        assert(dispatch_indices.skip(ordinal as int)[k + 1] == other as usize);
                    }
                    assert(next.dispatches[other] == plan.dispatches[other]);
                }
            }
        }
    }
}

/// Replaying a measured component changes nothing of a plan but the resources that
/// shards own, and the islands where it had none, whether it succeeds or not.
pub proof fn law_replay_changes_only_ownership<
    I: Fn(&VulkanDistributedExecutionPlan, &Vec<usize>, &String, usize) -> VulkanExecutableIdentity,
>(
    identity: I,
    plan: VulkanDistributedExecutionPlanModel,
    component_id: Seq<char>,
    dispatch_indices: Seq<usize>,
    case: VulkanPlacementExecutionCaseIdentityModel,
    identities: DeviceIdentitiesModel,
)
    ensures
        is_same_plan(
            plan,
            replayed_component(
                identity,
                plan,
                component_id,
                dispatch_indices,
                case,
                identities,
            ).0,
        ),
        plan.execution_islands.len() > 0 ==> replayed_component(
            identity,
            plan,
            component_id,
            dispatch_indices,
            case,
            identities,
        ).0.execution_islands == plan.execution_islands,
{
    if with_islands(plan, case) is Ok {
        let islanded = with_islands(plan, case)->Ok_0;
        if checked_case(
            identity,
            islanded,
            component_id,
            dispatch_indices,
            case,
            identities,
        ) is Ok {
            let rebound = checked_case(
                identity,
                islanded,
                component_id,
                dispatch_indices,
                case,
                identities,
            )->Ok_0;
            lemma_contracts_in_range(
                islanded.dispatches,
                dispatch_indices,
                component_id,
                0,
                Map::empty(),
            );
            lemma_dispatches_keep(
                islanded,
                component_id,
                dispatch_indices,
                rebound.shards,
                identities,
                0,
            );
            let applied = dispatches_applied_from(
                islanded,
                component_id,
                dispatch_indices,
                rebound.shards,
                identities,
                0,
            );
            lemma_same_plan_transitive(plan, islanded, applied.0);
        }
    }
}

pub proof fn lemma_contracts_in_range(
    dispatches: Seq<VulkanDistributedDispatchPlanModel>,
    dispatch_indices: Seq<usize>,
    component_id: Seq<char>,
    index: nat,
    contracts: Map<Seq<char>, Seq<char>>,
)
    requires
        contracts_from(dispatches, dispatch_indices, component_id, index, contracts) is Ok,
    ensures
        forall|i: int|
            index <= i < dispatch_indices.len() ==> #[trigger] dispatch_indices[i]
                < dispatches.len(),
    decreases dispatch_indices.len() - index,
{
    if index < dispatch_indices.len() {
        let dispatch = dispatches[dispatch_indices[index as int] as int];
        lemma_contracts_in_range(
            dispatches,
            dispatch_indices,
            component_id,
            index + 1,
            contracts.insert(
                dispatch.physical_execution_contract_id,
                dispatch.implementation_digest,
            ),
        );
    }
}

proof fn lemma_dispatches_own(
    plan: VulkanDistributedExecutionPlanModel,
    component_id: Seq<char>,
    dispatch_indices: Seq<usize>,
    shards: Seq<VulkanPlacementShardIdentityModel>,
    identities: DeviceIdentitiesModel,
    start: nat,
    ordinal: int,
    participant: int,
)
    requires
        forall|i: int|
            0 <= i < dispatch_indices.len() ==> #[trigger] dispatch_indices[i]
                < plan.dispatches.len(),
        dispatch_indices.no_duplicates(),
        dispatches_applied_from(
            plan,
            component_id,
            dispatch_indices,
            shards,
            identities,
            start,
        ).1 is Ok,
        start <= ordinal < dispatch_indices.len(),
        0 <= participant < plan.dispatches[dispatch_indices[ordinal] as int].shards.len(),
    ensures
        dispatches_applied_from(
            plan,
            component_id,
            dispatch_indices,
            shards,
            identities,
            start,
        ).0.dispatches[dispatch_indices[ordinal] as int].shards[participant].selected_resource_indices
            == owned_by_selector(
            plan.dispatches[dispatch_indices[ordinal] as int].selected_resource_partitions,
            exact_shard(
                shards,
                ordinal as usize,
                participant as usize,
            ).selected_resource_indices_by_partition,
        ),
    decreases dispatch_indices.len() - start,
{
    let place = dispatch_indices[start as int] as int;
    let dispatch = plan.dispatches[place];
    let applied = participants_applied_from(
        dispatch,
        component_id,
        start as usize,
        shards,
        identities,
        0,
    );
    let next = with_dispatch(plan, place, applied.0);
    lemma_participants_keep(dispatch, component_id, start as usize, shards, identities, 0);
    lemma_dispatches_keep(next, component_id, dispatch_indices, shards, identities, start + 1);
    if ordinal == start {
        let rest = dispatch_indices.skip(start as int + 1);
        assert(!rest.contains(place as usize)) by {
            if rest.contains(place as usize) {
                let k = choose|k: int| 0 <= k < rest.len() && rest[k] == place as usize;
                assert(dispatch_indices[start as int + 1 + k] == dispatch_indices[start as int]);
            }
        }
        let last = dispatches_applied_from(
            next,
            component_id,
            dispatch_indices,
            shards,
            identities,
            start + 1,
        ).0;
        assert(last.dispatches[place] == next.dispatches[place]);
        assert(applied.0.shards[participant].selected_resource_indices == owned_by_selector(
            dispatch.selected_resource_partitions,
            exact_shard(
                shards,
                start as usize,
                participant as usize,
            ).selected_resource_indices_by_partition,
        ));
    } else {
        let own = dispatch_indices[ordinal] as int;
        assert(own != place);
        assert(next.dispatches[own] == plan.dispatches[own]);
        lemma_dispatches_own(
            next,
            component_id,
            dispatch_indices,
            shards,
            identities,
            start + 1,
            ordinal,
            participant,
        );
    }
}

/// A measured component that is replayed has, on every shard of every dispatch, the
/// resources that the shard owned when it was measured.
pub proof fn law_replay_restores_measured_ownership<
    I: Fn(&VulkanDistributedExecutionPlan, &Vec<usize>, &String, usize) -> VulkanExecutableIdentity,
>(
    identity: I,
    plan: VulkanDistributedExecutionPlanModel,
    component_id: Seq<char>,
    dispatch_indices: Seq<usize>,
    case: VulkanPlacementExecutionCaseIdentityModel,
    identities: DeviceIdentitiesModel,
    ordinal: int,
    participant: int,
)
    requires
        dispatch_indices.no_duplicates(),
        replayed_component(
            identity,
            plan,
            component_id,
            dispatch_indices,
            case,
            identities,
        ).1 is Ok,
        0 <= ordinal < dispatch_indices.len(),
        0 <= participant < plan.dispatches[dispatch_indices[ordinal] as int].shards.len(),
    ensures
        replayed_component(
            identity,
            plan,
            component_id,
            dispatch_indices,
            case,
            identities,
        ).0.dispatches[dispatch_indices[ordinal] as int].shards[participant].selected_resource_indices
            == owned_by_selector(
            plan.dispatches[dispatch_indices[ordinal] as int].selected_resource_partitions,
            exact_shard(
                checked_case(
                    identity,
                    with_islands(plan, case)->Ok_0,
                    component_id,
                    dispatch_indices,
                    case,
                    identities,
                )->Ok_0.shards,
                ordinal as usize,
                participant as usize,
            ).selected_resource_indices_by_partition,
        ),
{
    let islanded = with_islands(plan, case)->Ok_0;
    let rebound = checked_case(
        identity,
        islanded,
        component_id,
        dispatch_indices,
        case,
        identities,
    )->Ok_0;
    lemma_contracts_in_range(
        islanded.dispatches,
        dispatch_indices,
        component_id,
        0,
        Map::empty(),
    );
    lemma_dispatches_own(
        islanded,
        component_id,
        dispatch_indices,
        rebound.shards,
        identities,
        0,
        ordinal,
        participant,
    );
}

/// The shards have the same places.
pub open spec fn same_places(
    before: Seq<VulkanPlacementShardIdentityModel>,
    after: Seq<VulkanPlacementShardIdentityModel>,
) -> bool {
    before.len() == after.len() && forall|i: int|
        0 <= i < before.len() ==> (#[trigger] after[i]).dispatch_ordinal
            == before[i].dispatch_ordinal && after[i].participant_ordinal
            == before[i].participant_ordinal && after[i].selected_resource_indices_by_partition
            == before[i].selected_resource_indices_by_partition
}

proof fn lemma_same_index(
    before: Seq<VulkanPlacementShardIdentityModel>,
    after: Seq<VulkanPlacementShardIdentityModel>,
    start: nat,
    dispatch_ordinal: usize,
    participant_ordinal: usize,
)
    requires
        same_places(before, after),
    ensures
        index_from(before, start, is_place(dispatch_ordinal, participant_ordinal)) == index_from(
            after,
            start,
            is_place(dispatch_ordinal, participant_ordinal),
        ),
        match index_from(after, start, is_place(dispatch_ordinal, participant_ordinal)) {
            Some(index) => index < after.len() && after[index as int].dispatch_ordinal
                == dispatch_ordinal && after[index as int].participant_ordinal
                == participant_ordinal,
            None => true,
        },
    decreases before.len() - start,
{
    if start < before.len() {
        assert(after[start as int].dispatch_ordinal == before[start as int].dispatch_ordinal);
        lemma_same_index(before, after, start + 1, dispatch_ordinal, participant_ordinal);
    }
}

proof fn lemma_participants_rebound(
    dispatch: VulkanDistributedDispatchPlanModel,
    component_id: Seq<char>,
    dispatch_ordinal: usize,
    index: nat,
    shards: Seq<VulkanPlacementShardIdentityModel>,
)
    requires
        participants_rebound_from(dispatch, component_id, dispatch_ordinal, index, shards) is Ok,
        dispatch.shards.len() <= usize::MAX,
    ensures
        same_places(
            shards,
            participants_rebound_from(
                dispatch,
                component_id,
                dispatch_ordinal,
                index,
                shards,
            )->Ok_0,
        ),
        forall|place: int|
            0 <= place < shards.len() && (shards[place].dispatch_ordinal != dispatch_ordinal
                || shards[place].participant_ordinal < index) ==> (
            #[trigger] participants_rebound_from(
                dispatch,
                component_id,
                dispatch_ordinal,
                index,
                shards,
            )->Ok_0[place]) == shards[place],
        forall|p: int|
            index <= p < dispatch.shards.len() ==> runtime_fragments(
                dispatch.selected_resource_partitions,
                #[trigger] dispatch.shards[p],
            ) == Ok::<FragmentsModel, Seq<char>>(
                exact_shard(
                    participants_rebound_from(
                        dispatch,
                        component_id,
                        dispatch_ordinal,
                        index,
                        shards,
                    )->Ok_0,
                    dispatch_ordinal,
                    p as usize,
                ).selected_resource_fragments_by_partition,
            ),
    decreases dispatch.shards.len() - index,
{
    if index < dispatch.shards.len() {
        let place = index_from(shards, 0, is_place(dispatch_ordinal, index as usize))->0 as int;
        let fragments = runtime_fragments(
            dispatch.selected_resource_partitions,
            dispatch.shards[index as int],
        )->Ok_0;
        lemma_same_index(shards, shards, 0, dispatch_ordinal, index as usize);
        let next = shards.update(
            place,
            VulkanPlacementShardIdentityModel {
                selected_resource_fragments_by_partition: fragments,
                ..shards[place]
            },
        );
        lemma_participants_rebound(dispatch, component_id, dispatch_ordinal, index + 1, next);
        let last = participants_rebound_from(
            dispatch,
            component_id,
            dispatch_ordinal,
            index + 1,
            next,
        )->Ok_0;
        assert(same_places(shards, last)) by {
            assert forall|i: int| 0 <= i < shards.len() implies (
            #[trigger] last[i]).dispatch_ordinal == shards[i].dispatch_ordinal
                && last[i].participant_ordinal == shards[i].participant_ordinal
                && last[i].selected_resource_indices_by_partition
                == shards[i].selected_resource_indices_by_partition by {
                assert(next[i].dispatch_ordinal == shards[i].dispatch_ordinal);
            }
        }
        lemma_same_index(shards, last, 0, dispatch_ordinal, index as usize);
        assert(last[place] == next[place]);
        assert forall|other: int|
            0 <= other < shards.len() && (shards[other].dispatch_ordinal != dispatch_ordinal
                || shards[other].participant_ordinal < index) implies (#[trigger] last[other])
            == shards[other] by {
            assert(other != place);
            assert(next[other] == shards[other]);
        }
    }
}

proof fn lemma_shards_rebound(
    dispatches: Seq<VulkanDistributedDispatchPlanModel>,
    dispatch_indices: Seq<usize>,
    component_id: Seq<char>,
    start: nat,
    shards: Seq<VulkanPlacementShardIdentityModel>,
    ordinal: int,
    participant: int,
)
    requires
        shards_rebound_from(dispatches, dispatch_indices, component_id, start, shards) is Ok,
        forall|i: int|
            0 <= i < dispatch_indices.len() ==> dispatches[(
            #[trigger] dispatch_indices[i]) as int].shards.len() <= usize::MAX,
        dispatch_indices.len() <= usize::MAX,
    ensures
        same_places(
            shards,
            shards_rebound_from(
                dispatches,
                dispatch_indices,
                component_id,
                start,
                shards,
            )->Ok_0,
        ),
        forall|place: int|
            0 <= place < shards.len() && shards[place].dispatch_ordinal < start ==> (
            #[trigger] shards_rebound_from(
                dispatches,
                dispatch_indices,
                component_id,
                start,
                shards,
            )->Ok_0[place]) == shards[place],
        start <= ordinal < dispatch_indices.len() && 0 <= participant
            < dispatches[dispatch_indices[ordinal] as int].shards.len() ==> runtime_fragments(
            dispatches[dispatch_indices[ordinal] as int].selected_resource_partitions,
            dispatches[dispatch_indices[ordinal] as int].shards[participant],
        ) == Ok::<FragmentsModel, Seq<char>>(
            exact_shard(
                shards_rebound_from(
                    dispatches,
                    dispatch_indices,
                    component_id,
                    start,
                    shards,
                )->Ok_0,
                ordinal as usize,
                participant as usize,
            ).selected_resource_fragments_by_partition,
        ),
    decreases dispatch_indices.len() - start,
{
    if start < dispatch_indices.len() {
        let dispatch = dispatches[dispatch_indices[start as int] as int];
        lemma_participants_rebound(dispatch, component_id, start as usize, 0, shards);
        let next = participants_rebound_from(
            dispatch,
            component_id,
            start as usize,
            0,
            shards,
        )->Ok_0;
        lemma_shards_rebound(
            dispatches,
            dispatch_indices,
            component_id,
            start + 1,
            next,
            ordinal,
            participant,
        );
        let last = shards_rebound_from(
            dispatches,
            dispatch_indices,
            component_id,
            start + 1,
            next,
        )->Ok_0;
        assert(same_places(shards, last)) by {
            assert forall|i: int| 0 <= i < shards.len() implies (
            #[trigger] last[i]).dispatch_ordinal == shards[i].dispatch_ordinal
                && last[i].participant_ordinal == shards[i].participant_ordinal
                && last[i].selected_resource_indices_by_partition
                == shards[i].selected_resource_indices_by_partition by {
                assert(next[i].dispatch_ordinal == shards[i].dispatch_ordinal);
            }
        }
        assert forall|place: int|
            0 <= place < shards.len() && shards[place].dispatch_ordinal < start implies (
        #[trigger] last[place]) == shards[place] by {
            assert(next[place] == shards[place]);
        }
        if ordinal == start && 0 <= participant < dispatch.shards.len() {
            assert(runtime_fragments(
                dispatch.selected_resource_partitions,
                dispatch.shards[participant],
            ) == Ok::<FragmentsModel, Seq<char>>(
                exact_shard(
                    next,
                    start as usize,
                    participant as usize,
                ).selected_resource_fragments_by_partition,
            ));
            lemma_found_place(dispatch, component_id, start as usize, 0, shards, participant);
            lemma_same_index(next, last, 0, start as usize, participant as usize);
            lemma_same_index(shards, next, 0, start as usize, participant as usize);
        }
    }
}

proof fn lemma_found_place(
    dispatch: VulkanDistributedDispatchPlanModel,
    component_id: Seq<char>,
    dispatch_ordinal: usize,
    index: nat,
    shards: Seq<VulkanPlacementShardIdentityModel>,
    participant: int,
)
    requires
        participants_rebound_from(dispatch, component_id, dispatch_ordinal, index, shards) is Ok,
        index <= participant < dispatch.shards.len(),
        dispatch.shards.len() <= usize::MAX,
    ensures
        index_from(shards, 0, is_place(dispatch_ordinal, participant as usize)) is Some,
    decreases dispatch.shards.len() - index,
{
    if index < participant {
        let place = index_from(shards, 0, is_place(dispatch_ordinal, index as usize))->0 as int;
        let fragments = runtime_fragments(
            dispatch.selected_resource_partitions,
            dispatch.shards[index as int],
        )->Ok_0;
        lemma_same_index(shards, shards, 0, dispatch_ordinal, index as usize);
        let next = shards.update(
            place,
            VulkanPlacementShardIdentityModel {
                selected_resource_fragments_by_partition: fragments,
                ..shards[place]
            },
        );
        lemma_found_place(dispatch, component_id, dispatch_ordinal, index + 1, next, participant);
        assert(same_places(shards, next));
        lemma_same_index(shards, next, 0, dispatch_ordinal, participant as usize);
    }
}

/// A measured case that is made a case of a component carries the contracts, the
/// implementations, the operations and the fragments of that component, and none of
/// the labels under which it was measured.
pub proof fn law_rebound_cases_carry_the_labels_of_the_component(
    identity: VulkanExecutableIdentityModel,
    plan: VulkanDistributedExecutionPlanModel,
    component_id: Seq<char>,
    dispatch_indices: Seq<usize>,
    case: VulkanPlacementExecutionCaseIdentityModel,
    ordinal: int,
    participant: int,
)
    requires
        rebound_case(identity, plan, component_id, dispatch_indices, case) is Ok,
        forall|i: int|
            0 <= i < dispatch_indices.len() ==> plan.dispatches[(
            #[trigger] dispatch_indices[i]) as int].shards.len() <= usize::MAX,
        dispatch_indices.len() <= usize::MAX,
        0 <= ordinal < dispatch_indices.len(),
        0 <= participant < plan.dispatches[dispatch_indices[ordinal] as int].shards.len(),
    ensures
        ({
            let rebound = rebound_case(identity, plan, component_id, dispatch_indices, case)->Ok_0;
            let contracts = contracts_from(
                plan.dispatches,
                dispatch_indices,
                component_id,
                0,
                Map::empty(),
            )->Ok_0;
            let dispatch = plan.dispatches[dispatch_indices[ordinal] as int];
            &&& rebound.contract_ids == ordered_keys::<String, Seq<char>>(contracts)
            &&& rebound.implementation_digests == ordered_values::<String, Seq<char>>(contracts)
            &&& identity.operations == Ok::<
                Seq<VulkanPlacementOperationGeometryModel>,
                Seq<char>,
            >(rebound.operations)
            &&& runtime_fragments(
                dispatch.selected_resource_partitions,
                dispatch.shards[participant],
            ) == Ok::<FragmentsModel, Seq<char>>(
                exact_shard(
                    rebound.shards,
                    ordinal as usize,
                    participant as usize,
                ).selected_resource_fragments_by_partition,
            )
        }),
{
    lemma_shards_rebound(
        plan.dispatches,
        dispatch_indices,
        component_id,
        0,
        case.shards,
        ordinal,
        participant,
    );
}

/// The numbers are chosen from those that are available from a start on, in their
/// order.
pub open spec fn is_choice(available: Seq<usize>, start: nat, chosen: Seq<usize>) -> bool
    decreases available.len() - start,
{
    if chosen.len() == 0 {
        true
    } else if start >= available.len() {
        false
    } else {
        (chosen[0] == available[start as int] && is_choice(
            available,
            start + 1,
            chosen.drop_first(),
        )) || is_choice(available, start + 1, chosen)
    }
}

proof fn lemma_choice_is_short(available: Seq<usize>, start: nat, chosen: Seq<usize>)
    requires
        start <= available.len(),
        is_choice(available, start, chosen),
    ensures
        chosen.len() <= available.len() - start,
    decreases available.len() - start,
{
    if chosen.len() > 0 {
        if chosen[0] == available[start as int] && is_choice(
            available,
            start + 1,
            chosen.drop_first(),
        ) {
            lemma_choice_is_short(available, start + 1, chosen.drop_first());
        } else {
            lemma_choice_is_short(available, start + 1, chosen);
        }
    }
}

/// The candidates for the dispatches that were measured are exactly the choices of as
/// many dispatches as are required whose identity is the measured one.
pub proof fn law_candidates_are_the_measured_choices<
    I: Fn(&VulkanDistributedExecutionPlan, &Vec<usize>, &String, usize) -> VulkanExecutableIdentity,
>(
    identity: I,
    plan: VulkanDistributedExecutionPlanModel,
    available: Seq<usize>,
    case: VulkanPlacementExecutionCaseIdentityModel,
    required: nat,
    start: nat,
    selected: Seq<usize>,
    more: Seq<usize>,
)
    requires
        selected.len() + more.len() == required,
        start <= available.len(),
        subsets_from(identity, plan, available, case, required, start, selected) is Ok,
    ensures
        subsets_from(identity, plan, available, case, required, start, selected)->Ok_0.contains(
            selected + more,
        ) <==> is_choice(available, start, more) && was_measured(
            case_identity(identity, plan, selected + more, case),
            case,
        ) == Ok::<bool, Seq<char>>(true),
    decreases available.len() - start,
{
    let candidates = subsets_from(
        identity,
        plan,
        available,
        case,
        required,
        start,
        selected,
    )->Ok_0;
    let all = selected + more;
    if more.len() == 0 {
        assert(all =~= selected);
        if candidates.len() > 0 {
            assert(candidates[0] == selected);
        }
    } else if available.len() < start + more.len() {
        if is_choice(available, start, more) {
            lemma_choice_is_short(available, start, more);
        }
    } else {
        let chosen = selected.push(available[start as int]);
        let with_start = subsets_from(
            identity,
            plan,
            available,
            case,
            required,
            start + 1,
            chosen,
        )->Ok_0;
        let without_start = subsets_from(
            identity,
            plan,
            available,
            case,
            required,
            start + 1,
            selected,
        )->Ok_0;
        assert(candidates == with_start + without_start);
        lemma_contains_sum(with_start, without_start, all);
        law_candidates_are_the_measured_choices(
            identity,
            plan,
            available,
            case,
            required,
            start + 1,
            selected,
            more,
        );
        if more[0] == available[start as int] {
            assert(chosen + more.drop_first() =~= all);
            law_candidates_are_the_measured_choices(
                identity,
                plan,
                available,
                case,
                required,
                start + 1,
                chosen,
                more.drop_first(),
            );
        } else if with_start.contains(all) {
            lemma_candidates_extend(
                identity,
                plan,
                available,
                case,
                required,
                start + 1,
                chosen,
                all,
            );
            assert(all[selected.len() as int] == more[0]);
            assert(all.take(chosen.len() as int)[selected.len() as int] == more[0]);
        }
    }
}

proof fn lemma_contains_sum<T>(left: Seq<T>, right: Seq<T>, value: T)
    ensures
        (left + right).contains(value) <==> left.contains(value) || right.contains(value),
{
    if left.contains(value) {
        let k = choose|k: int| 0 <= k < left.len() && left[k] == value;
        assert((left + right)[k] == value);
    }
    if right.contains(value) {
        let k = choose|k: int| 0 <= k < right.len() && right[k] == value;
        assert((left + right)[left.len() + k] == value);
    }
}

proof fn lemma_candidates_extend<
    I: Fn(&VulkanDistributedExecutionPlan, &Vec<usize>, &String, usize) -> VulkanExecutableIdentity,
>(
    identity: I,
    plan: VulkanDistributedExecutionPlanModel,
    available: Seq<usize>,
    case: VulkanPlacementExecutionCaseIdentityModel,
    required: nat,
    start: nat,
    selected: Seq<usize>,
    candidate: Seq<usize>,
)
    requires
        selected.len() <= required,
        start <= available.len(),
        subsets_from(identity, plan, available, case, required, start, selected) is Ok,
        subsets_from(identity, plan, available, case, required, start, selected)->Ok_0.contains(
            candidate,
        ),
    ensures
        candidate.len() >= selected.len(),
        candidate.take(selected.len() as int) == selected,
    decreases available.len() - start,
{
    if selected.len() >= required {
        assert(candidate == selected);
        assert(candidate.take(selected.len() as int) =~= selected);
    } else if available.len() >= start + (required - selected.len()) {
        let chosen = selected.push(available[start as int]);
        let with_start = subsets_from(
            identity,
            plan,
            available,
            case,
            required,
            start + 1,
            chosen,
        )->Ok_0;
        let without_start = subsets_from(
            identity,
            plan,
            available,
            case,
            required,
            start + 1,
            selected,
        )->Ok_0;
        lemma_contains_sum(with_start, without_start, candidate);
        if with_start.contains(candidate) {
            lemma_candidates_extend(
                identity,
                plan,
                available,
                case,
                required,
                start + 1,
                chosen,
                candidate,
            );
            assert(candidate.take(selected.len() as int) =~= candidate.take(
                chosen.len() as int,
            ).take(selected.len() as int));
            assert(chosen.take(selected.len() as int) =~= selected);
        } else {
            lemma_candidates_extend(
                identity,
                plan,
                available,
                case,
                required,
                start + 1,
                selected,
                candidate,
            );
        }
    }
}

} // verus!
