//! Comparing measured executions with planned ones.
use vstd::prelude::*;

use crate::dispatch_shards::{
    VulkanDistributedDispatchShard, VulkanDistributedDispatchShardModel,
    VulkanDistributedSelectedResourceFragmentPlan,
    VulkanDistributedSelectedResourceFragmentPlanModel,
    VulkanDistributedSelectedResourceParameterFragmentPlanModel,
};
use crate::errors::{plan_agrees, VulkanDistributedPlanError};
use crate::execution_plans::{
    VulkanDistributedDispatchDistribution, VulkanDistributedDispatchPlan,
    VulkanDistributedDispatchPlanModel, VulkanDistributedSelectedResourcePartitionPlan,
    VulkanDistributedSelectedResourcePartitionPlanModel,
};
use crate::ordered::{ordered_members, OrderedMap, OrderedSet};
use crate::placement::{
    VulkanPlacementOperationGeometry, VulkanPlacementOperationGeometryModel,
    VulkanPlacementSelectedResourceFragmentIdentity,
    VulkanPlacementSelectedResourceFragmentIdentityModel,
    VulkanPlacementSelectedResourceParameterFragmentIdentity,
    VulkanPlacementSelectedResourceParameterFragmentIdentityModel,
};
use crate::sequences::{append, find_from};
use crate::text::{debug_text, decimal, decimal_text, join5, join6, quoted};
use crate::values::PlainValue;

verus! {

/// An error of replaying a measured execution.
pub fn exact_case_error<T>(message: String) -> (outcome: Result<T, VulkanDistributedPlanError>)
    ensures
        outcome is Err,
        outcome->Err_0.0@ == message@,
{
    Err(VulkanDistributedPlanError(message))
}

/// Two operations have the same size, whatever they belong to.
pub open spec fn same_operation(
    measured: VulkanPlacementOperationGeometryModel,
    runtime: VulkanPlacementOperationGeometryModel,
) -> bool {
    match (measured, runtime) {
        (
            VulkanPlacementOperationGeometryModel::Dispatch { geometry: left },
            VulkanPlacementOperationGeometryModel::Dispatch { geometry: right },
        ) => {
            &&& left.logical_extent == right.logical_extent
            &&& left.sampled_extent == right.sampled_extent
            &&& left.input_width == right.input_width
            &&& left.workgroup_count_x == right.workgroup_count_x
            &&& left.local_size_x == right.local_size_x
        },
        (
            VulkanPlacementOperationGeometryModel::DirectedTransfer { byte_count: left, .. },
            VulkanPlacementOperationGeometryModel::DirectedTransfer { byte_count: right, .. },
        ) => left == right,
        (
            VulkanPlacementOperationGeometryModel::Reduction {
                element_count: left_elements,
                element_byte_count: left_bytes,
                participant_count: left_participants,
                ..
            },
            VulkanPlacementOperationGeometryModel::Reduction {
                element_count: right_elements,
                element_byte_count: right_bytes,
                participant_count: right_participants,
                ..
            },
        ) => left_elements == right_elements && left_bytes == right_bytes && left_participants
            == right_participants,
        (
            VulkanPlacementOperationGeometryModel::LazyLoadWave {
                resource_count: left_resources,
                byte_count: left_bytes,
                ..
            },
            VulkanPlacementOperationGeometryModel::LazyLoadWave {
                resource_count: right_resources,
                byte_count: right_bytes,
                ..
            },
        ) => left_resources == right_resources && left_bytes == right_bytes,
        (
            VulkanPlacementOperationGeometryModel::SelectedResourceTransaction {
                resource_execution_class_id: left_class,
                selector_selection_count: left_selections,
                executed_resource_occurrence_count: left_occurrences,
                ..
            },
            VulkanPlacementOperationGeometryModel::SelectedResourceTransaction {
                resource_execution_class_id: right_class,
                selector_selection_count: right_selections,
                executed_resource_occurrence_count: right_occurrences,
                ..
            },
        ) => left_class == right_class && left_selections == right_selections && left_occurrences
            == right_occurrences,
        _ => false,
    }
}

/// Two lists of operations have the same sizes in the same order.
pub open spec fn same_operations(
    measured: Seq<VulkanPlacementOperationGeometryModel>,
    runtime: Seq<VulkanPlacementOperationGeometryModel>,
) -> bool {
    measured.len() == runtime.len() && forall|i: int|
        0 <= i < measured.len() ==> same_operation(#[trigger] measured[i], runtime[i])
}

fn operations_match(
    measured: &VulkanPlacementOperationGeometry,
    runtime: &VulkanPlacementOperationGeometry,
) -> (result: bool)
    ensures
        result == same_operation(measured.deep_view(), runtime.deep_view()),
{
    match (measured, runtime) {
        (
            VulkanPlacementOperationGeometry::Dispatch { geometry: left },
            VulkanPlacementOperationGeometry::Dispatch { geometry: right },
        ) => left.logical_extent == right.logical_extent && left.sampled_extent
            == right.sampled_extent && left.input_width == right.input_width
            && left.workgroup_count_x == right.workgroup_count_x && left.local_size_x
            == right.local_size_x,
        (
            VulkanPlacementOperationGeometry::DirectedTransfer { byte_count: left, .. },
            VulkanPlacementOperationGeometry::DirectedTransfer { byte_count: right, .. },
        ) => *left == *right,
        (
            VulkanPlacementOperationGeometry::Reduction {
                element_count: left_elements,
                element_byte_count: left_bytes,
                participant_count: left_participants,
                ..
            },
            VulkanPlacementOperationGeometry::Reduction {
                element_count: right_elements,
                element_byte_count: right_bytes,
                participant_count: right_participants,
                ..
            },
        ) => *left_elements == *right_elements && *left_bytes == *right_bytes && *left_participants
            == *right_participants,
        (
            VulkanPlacementOperationGeometry::LazyLoadWave {
                resource_count: left_resources,
                byte_count: left_bytes,
                ..
            },
            VulkanPlacementOperationGeometry::LazyLoadWave {
                resource_count: right_resources,
                byte_count: right_bytes,
                ..
            },
        ) => *left_resources == *right_resources && *left_bytes == *right_bytes,
        (
            VulkanPlacementOperationGeometry::SelectedResourceTransaction {
                resource_execution_class_id: left_class,
                selector_selection_count: left_selections,
                executed_resource_occurrence_count: left_occurrences,
                ..
            },
            VulkanPlacementOperationGeometry::SelectedResourceTransaction {
                resource_execution_class_id: right_class,
                selector_selection_count: right_selections,
                executed_resource_occurrence_count: right_occurrences,
                ..
            },
        ) => left_class.same(right_class) && *left_selections == *right_selections
            && *left_occurrences == *right_occurrences,
        _ => false,
    }
}

/// Whether two lists of operations have the same sizes in the same order.
pub fn exact_operations_are_structurally_equivalent(
    measured: &Vec<VulkanPlacementOperationGeometry>,
    runtime: &Vec<VulkanPlacementOperationGeometry>,
) -> (result: bool)
    ensures
        result == same_operations(measured.deep_view(), runtime.deep_view()),
{
    let ghost left = measured.deep_view();
    let ghost right = runtime.deep_view();
    if measured.len() != runtime.len() {
        return false;
    }
    for index in 0..measured.len()
        invariant
            measured.len() == runtime.len(),
            left == measured.deep_view(),
            right == runtime.deep_view(),
            forall|i: int| 0 <= i < index ==> same_operation(#[trigger] left[i], right[i]),
    {
        assert(left[index as int] == measured@[index as int].deep_view());
        assert(right[index as int] == runtime@[index as int].deep_view());
        if !operations_match(&measured[index], &runtime[index]) {
            assert(!same_operation(left[index as int], right[index as int]));
            return false;
        }
    }
    true
}

/// Two parameter fragments hold the same bytes, whatever the resource is called.
pub open spec fn same_parameter(
    measured: VulkanPlacementSelectedResourceParameterFragmentIdentityModel,
    runtime: VulkanPlacementSelectedResourceParameterFragmentIdentityModel,
) -> bool {
    &&& measured.parameter_slot == runtime.parameter_slot
    &&& measured.resource_byte_count == runtime.resource_byte_count
    &&& measured.byte_offset == runtime.byte_offset
    &&& measured.byte_count == runtime.byte_count
}

/// Two fragments are the same part of the same resource, whatever it is called.
pub open spec fn same_fragment(
    measured: VulkanPlacementSelectedResourceFragmentIdentityModel,
    runtime: VulkanPlacementSelectedResourceFragmentIdentityModel,
) -> bool {
    &&& measured.resource_index == runtime.resource_index
    &&& measured.logical_start == runtime.logical_start
    &&& measured.logical_count == runtime.logical_count
    &&& measured.parameters.len() == runtime.parameters.len()
    &&& forall|i: int|
        0 <= i < measured.parameters.len() ==> same_parameter(
            #[trigger] measured.parameters[i],
            runtime.parameters[i],
        )
}

/// Two lists of fragments are the same parts in the same order.
pub open spec fn same_fragment_list(
    measured: Seq<VulkanPlacementSelectedResourceFragmentIdentityModel>,
    runtime: Seq<VulkanPlacementSelectedResourceFragmentIdentityModel>,
) -> bool {
    measured.len() == runtime.len() && forall|i: int|
        0 <= i < measured.len() ==> same_fragment(#[trigger] measured[i], runtime[i])
}

/// The fragments of a shard by the partition that they belong to.
pub type FragmentsModel = Map<usize, Seq<VulkanPlacementSelectedResourceFragmentIdentityModel>>;

/// The fragments of a shard by the partition that they belong to.
pub type Fragments = OrderedMap<usize, Vec<VulkanPlacementSelectedResourceFragmentIdentity>>;

/// The partitions have the same parts, whatever the resources are called.
pub open spec fn same_fragments(measured: FragmentsModel, runtime: FragmentsModel) -> bool {
    &&& measured.dom() == runtime.dom()
    &&& forall|partition: usize| #[trigger]
        measured.contains_key(partition) ==> same_fragment_list(
            measured[partition],
            runtime[partition],
        )
}

fn fragments_match(
    measured: &VulkanPlacementSelectedResourceFragmentIdentity,
    runtime: &VulkanPlacementSelectedResourceFragmentIdentity,
) -> (result: bool)
    ensures
        result == same_fragment(measured.deep_view(), runtime.deep_view()),
{
    let ghost left = measured.deep_view().parameters;
    let ghost right = runtime.deep_view().parameters;
    if measured.resource_index != runtime.resource_index || measured.logical_start
        != runtime.logical_start || measured.logical_count != runtime.logical_count
        || measured.parameters.len() != runtime.parameters.len() {
        return false;
    }
    for index in 0..measured.parameters.len()
        invariant
            measured.parameters.len() == runtime.parameters.len(),
            left == measured.deep_view().parameters,
            right == runtime.deep_view().parameters,
            forall|i: int| 0 <= i < index ==> same_parameter(#[trigger] left[i], right[i]),
    {
        let one = &measured.parameters[index];
        let other = &runtime.parameters[index];
        assert(left[index as int] == one.deep_view());
        assert(right[index as int] == other.deep_view());
        if one.parameter_slot != other.parameter_slot || one.resource_byte_count
            != other.resource_byte_count || one.byte_offset != other.byte_offset || one.byte_count
            != other.byte_count {
            assert(!same_parameter(left[index as int], right[index as int]));
            return false;
        }
    }
    true
}

fn fragment_lists_match(
    measured: &Vec<VulkanPlacementSelectedResourceFragmentIdentity>,
    runtime: &Vec<VulkanPlacementSelectedResourceFragmentIdentity>,
) -> (result: bool)
    ensures
        result == same_fragment_list(measured.deep_view(), runtime.deep_view()),
{
    let ghost left = measured.deep_view();
    let ghost right = runtime.deep_view();
    if measured.len() != runtime.len() {
        return false;
    }
    for index in 0..measured.len()
        invariant
            measured.len() == runtime.len(),
            left == measured.deep_view(),
            right == runtime.deep_view(),
            forall|i: int| 0 <= i < index ==> same_fragment(#[trigger] left[i], right[i]),
    {
        assert(left[index as int] == measured@[index as int].deep_view());
        assert(right[index as int] == runtime@[index as int].deep_view());
        if !fragments_match(&measured[index], &runtime[index]) {
            assert(!same_fragment(left[index as int], right[index as int]));
            return false;
        }
    }
    true
}

/// Whether the partitions have the same parts, whatever the resources are called.
pub fn exact_selected_resource_fragments_are_structurally_equivalent(
    measured: &Fragments,
    runtime: &Fragments,
) -> (result: bool)
    ensures
        result == same_fragments(measured.deep_view(), runtime.deep_view()),
{
    let ghost left = measured.deep_view();
    let ghost right = runtime.deep_view();
    let count: usize = measured.len();
    let other_count: usize = runtime.len();
    let ghost listing = measured.listing();
    if count != other_count {
        return false;
    }
    for index in 0..count
        invariant
            count == listing.len(),
            listing == measured.listing(),
            crate::ordered::keys_increase::<
                usize,
                Seq<VulkanPlacementSelectedResourceFragmentIdentityModel>,
            >(listing),
            crate::ordered::listed_map(listing) == left,
            left == measured.deep_view(),
            right == runtime.deep_view(),
            forall|i: int|
                0 <= i < index ==> right.contains_key((#[trigger] listing[i]).0)
                    && same_fragment_list(listing[i].1, right[listing[i].0]),
    {
        let partition = measured.key_at(index);
        proof {
            crate::ordered::lemma_listed_at::<
                usize,
                Seq<VulkanPlacementSelectedResourceFragmentIdentityModel>,
            >(listing, index as int);
        }
        match runtime.get(partition) {
            None => {
                assert(left.dom().contains(*partition) && !right.dom().contains(*partition));
                return false;
            },
            Some(fragments) => {
                if !fragment_lists_match(measured.value_at(index), fragments) {
                    assert(left.contains_key(*partition));
                    return false;
                }
            },
        }
    }
    proof {
        assert forall|partition: usize| #[trigger] left.contains_key(partition) implies
            right.contains_key(partition) && same_fragment_list(
            left[partition],
            right[partition],
        ) by {
            assert(crate::ordered::lists_key(listing, partition));
            let k = choose|k: int| 0 <= k < listing.len() && #[trigger] listing[k].0 == partition;
            crate::ordered::lemma_listed_at::<
                usize,
                Seq<VulkanPlacementSelectedResourceFragmentIdentityModel>,
            >(listing, k);
            assert(right.contains_key(listing[k].0));
        }
        assert(left.dom().subset_of(right.dom()));
        vstd::set_lib::lemma_subset_equality(left.dom(), right.dom());
    }
    true
}

/// A parameter fragment of a plan as the identity of one.
pub open spec fn parameter_identity() -> spec_fn(
    VulkanDistributedSelectedResourceParameterFragmentPlanModel,
) -> VulkanPlacementSelectedResourceParameterFragmentIdentityModel {
    |parameter: VulkanDistributedSelectedResourceParameterFragmentPlanModel|
        VulkanPlacementSelectedResourceParameterFragmentIdentityModel {
            parameter_slot: parameter.parameter_slot,
            resource_id: parameter.resource_id,
            resource_byte_count: parameter.resource_byte_count,
            byte_offset: parameter.byte_offset,
            byte_count: parameter.byte_count,
        }
}

/// A fragment of a plan as the identity of one.
pub open spec fn fragment_identity() -> spec_fn(
    VulkanDistributedSelectedResourceFragmentPlanModel,
) -> VulkanPlacementSelectedResourceFragmentIdentityModel {
    |fragment: VulkanDistributedSelectedResourceFragmentPlanModel|
        VulkanPlacementSelectedResourceFragmentIdentityModel {
            resource_index: fragment.resource_index,
            atomic_group_id: fragment.atomic_group_id,
            logical_start: fragment.logical_start,
            logical_count: fragment.logical_count,
            parameters: fragment.parameters.map_values(parameter_identity()),
        }
}

/// The fragments of a shard by the ordinal of the partition.
pub open spec fn identified_fragments(
    partitions: Seq<VulkanDistributedSelectedResourcePartitionPlanModel>,
    shard: VulkanDistributedDispatchShardModel,
) -> FragmentsModel {
    Map::new(
        |ordinal: usize|
            ordinal < partitions.len() && shard.selected_resource_fragments.contains_key(
                partitions[ordinal as int].selector_id,
            ),
        |ordinal: usize|
            shard.selected_resource_fragments[partitions[ordinal as int].selector_id].map_values(
                fragment_identity(),
            ),
    )
}

/// Some partition has the selector.
pub open spec fn knows_selector(
    partitions: Seq<VulkanDistributedSelectedResourcePartitionPlanModel>,
    selector_id: Seq<char>,
) -> bool {
    exists|i: int|
        0 <= i < partitions.len() && (#[trigger] partitions[i]).selector_id == selector_id
}

/// The fragments of a shard by the ordinal of the partition, or the text of the error.
pub open spec fn runtime_fragments(
    partitions: Seq<VulkanDistributedSelectedResourcePartitionPlanModel>,
    shard: VulkanDistributedDispatchShardModel,
) -> Result<FragmentsModel, Seq<char>> {
    if exists|selector_id: Seq<char>| #[trigger]
        shard.selected_resource_fragments.contains_key(selector_id) && !knows_selector(
            partitions,
            selector_id,
        ) {
        Err("runtime shard references an unknown selected-resource fragment"@)
    } else {
        Ok(identified_fragments(partitions, shard))
    }
}

fn selector_is_known(
    partitions: &Vec<VulkanDistributedSelectedResourcePartitionPlan>,
    selector_id: &String,
) -> (result: bool)
    ensures
        result == knows_selector(partitions.deep_view(), selector_id@),
{
    let ghost all = partitions.deep_view();
    for index in 0..partitions.len()
        invariant
            all == partitions.deep_view(),
            forall|i: int| 0 <= i < index ==> (#[trigger] all[i]).selector_id != selector_id@,
    {
        assert(all[index as int] == partitions@[index as int].deep_view());
        if partitions[index].selector_id == *selector_id {
            return true;
        }
    }
    false
}

fn identify_fragment(fragment: &VulkanDistributedSelectedResourceFragmentPlan) -> (identity:
    VulkanPlacementSelectedResourceFragmentIdentity)
    ensures
        identity.deep_view() == fragment_identity()(fragment.deep_view()),
{
    let ghost expected = fragment.deep_view().parameters.map_values(parameter_identity());
    let mut parameters: Vec<VulkanPlacementSelectedResourceParameterFragmentIdentity> = Vec::new();
    assert(parameters.deep_view() =~= expected.take(0));
    for index in 0..fragment.parameters.len()
        invariant
            expected == fragment.deep_view().parameters.map_values(parameter_identity()),
            parameters.deep_view() == expected.take(index as int),
    {
        let parameter = &fragment.parameters[index];
        assert(fragment.deep_view().parameters[index as int] == parameter.deep_view());
        append(
            &mut parameters,
            VulkanPlacementSelectedResourceParameterFragmentIdentity {
                parameter_slot: parameter.parameter_slot,
                resource_id: parameter.resource_id.clone(),
                resource_byte_count: parameter.resource_byte_count,
                byte_offset: parameter.byte_offset,
                byte_count: parameter.byte_count,
            },
        );
        assert(expected.take(index as int + 1) =~= expected.take(index as int).push(
            expected[index as int],
        ));
    }
    assert(expected.take(expected.len() as int) =~= expected);
    VulkanPlacementSelectedResourceFragmentIdentity {
        resource_index: fragment.resource_index,
        atomic_group_id: fragment.atomic_group_id.clone(),
        logical_start: fragment.logical_start,
        logical_count: fragment.logical_count,
        parameters,
    }
}

fn identify_fragments(
    fragments: &Vec<VulkanDistributedSelectedResourceFragmentPlan>,
) -> (identities:
    Vec<VulkanPlacementSelectedResourceFragmentIdentity>)
    ensures
        identities.deep_view() == fragments.deep_view().map_values(fragment_identity()),
{
    let ghost expected = fragments.deep_view().map_values(fragment_identity());
    let mut identities: Vec<VulkanPlacementSelectedResourceFragmentIdentity> = Vec::new();
    assert(identities.deep_view() =~= expected.take(0));
    for index in 0..fragments.len()
        invariant
            expected == fragments.deep_view().map_values(fragment_identity()),
            identities.deep_view() == expected.take(index as int),
    {
        assert(fragments.deep_view()[index as int] == fragments@[index as int].deep_view());
        append(&mut identities, identify_fragment(&fragments[index]));
        assert(expected.take(index as int + 1) =~= expected.take(index as int).push(
            expected[index as int],
        ));
    }
    assert(expected.take(expected.len() as int) =~= expected);
    identities
}

/// The first partitions of the fragments.
pub open spec fn up_to(fragments: FragmentsModel, count: nat) -> FragmentsModel {
    fragments.restrict(Set::new(|ordinal: usize| ordinal < count))
}

/// Identifies the fragments of a shard by the ordinal of the partition.
pub fn exact_runtime_selected_resource_fragments(
    selected_resource_partitions: &Vec<VulkanDistributedSelectedResourcePartitionPlan>,
    shard: &VulkanDistributedDispatchShard,
) -> (outcome: Result<Fragments, VulkanDistributedPlanError>)
    ensures
        plan_agrees(
            outcome,
            runtime_fragments(selected_resource_partitions.deep_view(), shard.deep_view()),
        ),
{
    let ghost partitions = selected_resource_partitions.deep_view();
    let ghost model = shard.deep_view();
    let count: usize = shard.selected_resource_fragments.len();
    let ghost listing = shard.selected_resource_fragments.listing();
    for index in 0..count
        invariant
            count == listing.len(),
            listing == shard.selected_resource_fragments.listing(),
            crate::ordered::keys_increase::<
                String,
                Seq<VulkanDistributedSelectedResourceFragmentPlanModel>,
            >(listing),
            crate::ordered::listed_map(listing) == model.selected_resource_fragments,
            partitions == selected_resource_partitions.deep_view(),
            model == shard.deep_view(),
            forall|i: int| 0 <= i < index ==> knows_selector(partitions, (#[trigger] listing[i]).0),
    {
        let selector_id = shard.selected_resource_fragments.key_at(index);
        if !selector_is_known(selected_resource_partitions, selector_id) {
            proof {
                crate::ordered::lemma_listed_at::<
                    String,
                    Seq<VulkanDistributedSelectedResourceFragmentPlanModel>,
                >(listing, index as int);
                assert(model.selected_resource_fragments.contains_key(selector_id@));
            }
            return exact_case_error(
                "runtime shard references an unknown selected-resource fragment".to_owned(),
            );
        }
    }
    proof {
        assert forall|selector_id: Seq<char>| #[trigger]
            model.selected_resource_fragments.contains_key(selector_id) implies knows_selector(
            partitions,
            selector_id,
        ) by {
            assert(crate::ordered::lists_key(listing, selector_id));
            let k = choose|k: int|
                0 <= k < listing.len() && #[trigger] listing[k].0 == selector_id;
            assert(knows_selector(partitions, listing[k].0));
        }
    }
    let ghost expected = identified_fragments(partitions, model);
    let mut fragments: Fragments = OrderedMap::new();
    assert(fragments.deep_view() =~= up_to(expected, 0));
    for ordinal in 0..selected_resource_partitions.len()
        invariant
            partitions == selected_resource_partitions.deep_view(),
            model == shard.deep_view(),
            expected == identified_fragments(partitions, model),
            fragments.deep_view() == up_to(expected, ordinal as nat),
    {
        assert(partitions[ordinal as int]
            == selected_resource_partitions@[ordinal as int].deep_view());
        match shard.selected_resource_fragments.get(
            &selected_resource_partitions[ordinal].selector_id,
        ) {
            None => {},
            Some(found) => {
                fragments.insert(ordinal, identify_fragments(found));
            },
        }
        assert(fragments.deep_view() =~= up_to(expected, ordinal as nat + 1));
    }
    assert(up_to(expected, partitions.len()) =~= expected);
    Ok(fragments)
}

/// The name of a distribution in the identity of a shard.
pub open spec fn distribution_identity(
    distribution: VulkanDistributedDispatchDistribution,
) -> Seq<char> {
    match distribution {
        VulkanDistributedDispatchDistribution::OutputRows => "output_rows"@,
        VulkanDistributedDispatchDistribution::InputColumns => "input_columns"@,
        VulkanDistributedDispatchDistribution::ExpertRange => "expert_range"@,
    }
}

/// Names a distribution in the identity of a shard.
pub fn exact_distribution_name(distribution: VulkanDistributedDispatchDistribution) -> (name:
    &'static str)
    ensures
        name@ == distribution_identity(distribution),
{
    match distribution {
        VulkanDistributedDispatchDistribution::OutputRows => "output_rows",
        VulkanDistributedDispatchDistribution::InputColumns => "input_columns",
        VulkanDistributedDispatchDistribution::ExpertRange => "expert_range",
    }
}

/// The text of an error about a dispatch of a measured component.
pub open spec fn dispatch_case_text(component_id: Seq<char>, dispatch_ordinal: usize) -> Seq<char> {
    "exact case for "@ + debug_text(component_id) + " dispatch "@ + decimal_text(
        dispatch_ordinal as nat,
    )
}

pub(crate) fn name_dispatch_case(component_id: &str, dispatch_ordinal: usize) -> (text: String)
    ensures
        text@ == dispatch_case_text(component_id@, dispatch_ordinal),
{
    crate::text::join4(
        "exact case for ",
        quoted(component_id).as_str(),
        " dispatch ",
        decimal(dispatch_ordinal).as_str(),
    )
}

/// The fragment belongs to a resource.
pub open spec fn is_of_resource(resource_index: usize) -> spec_fn(
    VulkanDistributedSelectedResourceFragmentPlanModel,
) -> bool {
    |fragment: VulkanDistributedSelectedResourceFragmentPlanModel|
        fragment.resource_index == resource_index
}

/// Where the first shards hold a resource: start, count and shard.
pub open spec fn held_ranges(
    shards: Seq<VulkanDistributedDispatchShardModel>,
    selector_id: Seq<char>,
    resource_index: usize,
) -> Set<(usize, (usize, usize))>
    decreases shards.len(),
{
    if shards.len() == 0 {
        Set::empty()
    } else {
        let earlier = held_ranges(shards.drop_last(), selector_id, resource_index);
        match find_from(
            shards.last().selected_resource_fragments[selector_id],
            0,
            is_of_resource(resource_index),
        ) {
            Some(fragment) => earlier.insert(
                (
                    fragment.logical_start,
                    (fragment.logical_count, (shards.len() - 1) as usize),
                ),
            ),
            None => earlier,
        }
    }
}

/// Where ranges end that follow on each other from an index and a start on, or the
/// text of the error.
pub open spec fn covered_from(
    ranges: Seq<(usize, (usize, usize))>,
    index: nat,
    frontier: usize,
    gap: Seq<char>,
) -> Result<usize, Seq<char>>
    decreases ranges.len() - index,
{
    if index >= ranges.len() {
        Ok(frontier)
    } else if ranges[index as int].0 != frontier {
        Err(gap)
    } else if frontier + ranges[index as int].1.0 > usize::MAX {
        Err("exact selected-resource fragment coverage overflowed"@)
    } else {
        covered_from(
            ranges,
            index + 1,
            (frontier + ranges[index as int].1.0) as usize,
            gap,
        )
    }
}

/// What is wrong with the fragments of a resource: the ranges that shards hold have to
/// follow on each other over all rows.
pub open spec fn fragment_fault(
    dispatch: VulkanDistributedDispatchPlanModel,
    selector_id: Seq<char>,
    resource_index: usize,
    prefix: Seq<char>,
) -> Option<Seq<char>> {
    let ranges = ordered_members::<(usize, (usize, usize))>(
        held_ranges(dispatch.shards, selector_id, resource_index),
    );
    match covered_from(
        ranges,
        0,
        0,
        prefix + " leaves a fragmented selector gap for resource "@ + decimal_text(
            resource_index as nat,
        ),
    ) {
        Err(message) => Some(message),
        Ok(frontier) => if frontier != dispatch.output_rows {
            Some(
                prefix + " does not cover the full fragment extent for resource "@ + decimal_text(
                    resource_index as nat,
                ),
            )
        } else {
            None
        },
    }
}

/// The first resource from an index on whose fragments are wrong makes an error.
pub open spec fn fragment_fault_from(
    dispatch: VulkanDistributedDispatchPlanModel,
    partition: VulkanDistributedSelectedResourcePartitionPlanModel,
    prefix: Seq<char>,
    index: nat,
) -> Option<Seq<char>>
    decreases partition.resource_count - index,
{
    if index >= partition.resource_count {
        None
    } else {
        match fragment_fault(dispatch, partition.selector_id, index as usize, prefix) {
            Some(message) => Some(message),
            None => fragment_fault_from(dispatch, partition, prefix, index + 1),
        }
    }
}

/// The shard owns whole resources, or no fragments of the selector.
pub open spec fn mixes_ownership(
    shard: VulkanDistributedDispatchShardModel,
    selector_id: Seq<char>,
) -> bool {
    shard.selected_resource_indices != Map::<Seq<char>, Seq<usize>>::empty()
        || !shard.selected_resource_fragments.contains_key(selector_id)
}

/// How often a value occurs.
pub open spec fn occurrences<T>(items: Seq<T>, value: T) -> nat
    decreases items.len(),
{
    if items.len() == 0 {
        0
    } else if items.last() == value {
        occurrences(items.drop_last(), value) + 1
    } else {
        occurrences(items.drop_last(), value)
    }
}

/// The resources of a selector that the first shards own.
pub open spec fn owned_resources(
    shards: Seq<VulkanDistributedDispatchShardModel>,
    selector_id: Seq<char>,
) -> Seq<usize>
    decreases shards.len(),
{
    if shards.len() == 0 {
        Seq::empty()
    } else {
        owned_resources(shards.drop_last(), selector_id)
            + shards.last().selected_resource_indices[selector_id]
    }
}

/// The first index from one on that names no resource.
pub open spec fn stray_from(indices: Seq<usize>, resource_count: usize, index: nat) -> Option<usize>
    decreases indices.len() - index,
{
    if index >= indices.len() {
        None
    } else if indices[index as int] >= resource_count {
        Some(indices[index as int])
    } else {
        stray_from(indices, resource_count, index + 1)
    }
}

/// The first shard from an index on that lacks the selector or names a resource that
/// does not exist makes an error.
pub open spec fn ownership_fault_from(
    shards: Seq<VulkanDistributedDispatchShardModel>,
    partition: VulkanDistributedSelectedResourcePartitionPlanModel,
    prefix: Seq<char>,
    index: nat,
) -> Option<Seq<char>>
    decreases shards.len() - index,
{
    let selector_id = partition.selector_id;
    if index >= shards.len() {
        None
    } else {
        let shard = shards[index as int];
        if !shard.selected_resource_indices.contains_key(selector_id) {
            Some(
                prefix + " omitted selector "@ + debug_text(selector_id) + " on participant "@
                    + debug_text(shard.device_id),
            )
        } else {
            match stray_from(
                shard.selected_resource_indices[selector_id],
                partition.resource_count,
                0,
            ) {
                Some(resource_index) => Some(
                    prefix + " assigns selector "@ + debug_text(selector_id) + " resource "@
                        + decimal_text(resource_index as nat) + " out of range"@,
                ),
                None => ownership_fault_from(shards, partition, prefix, index + 1),
            }
        }
    }
}

/// Every resource of the partition is owned exactly once.
pub open spec fn owned_once(
    shards: Seq<VulkanDistributedDispatchShardModel>,
    partition: VulkanDistributedSelectedResourcePartitionPlanModel,
) -> bool {
    forall|resource: usize|
        resource < partition.resource_count ==> #[trigger] occurrences(
            owned_resources(shards, partition.selector_id),
            resource,
        ) == 1
}

/// What is wrong with the ownership of the resources of a partition.
pub open spec fn partition_fault(
    dispatch: VulkanDistributedDispatchPlanModel,
    partition: VulkanDistributedSelectedResourcePartitionPlanModel,
    prefix: Seq<char>,
) -> Option<Seq<char>> {
    if partition.parameter_partitions.len() > 0 {
        if exists|i: int|
            0 <= i < dispatch.shards.len() && mixes_ownership(
                #[trigger] dispatch.shards[i],
                partition.selector_id,
            ) {
            Some(
                prefix + " mixes whole-resource and fragment ownership for selector "@
                    + debug_text(partition.selector_id),
            )
        } else {
            fragment_fault_from(dispatch, partition, prefix, 0)
        }
    } else {
        match ownership_fault_from(dispatch.shards, partition, prefix, 0) {
            Some(message) => Some(message),
            None => if !owned_once(dispatch.shards, partition) {
                Some(
                    prefix + " must assign every selector "@ + debug_text(partition.selector_id)
                        + " resource exactly once"@,
                )
            } else {
                None
            },
        }
    }
}

/// The first partition from an index on whose resources are owned wrongly makes an
/// error.
pub open spec fn coverage_fault_from(
    dispatch: VulkanDistributedDispatchPlanModel,
    prefix: Seq<char>,
    index: nat,
) -> Option<Seq<char>>
    decreases dispatch.selected_resource_partitions.len() - index,
{
    if index >= dispatch.selected_resource_partitions.len() {
        None
    } else {
        match partition_fault(
            dispatch,
            dispatch.selected_resource_partitions[index as int],
            prefix,
        ) {
            Some(message) => Some(message),
            None => coverage_fault_from(dispatch, prefix, index + 1),
        }
    }
}

/// What was found is the fault that was expected.
pub open spec fn fault_agrees(
    outcome: Result<(), VulkanDistributedPlanError>,
    expected: Option<Seq<char>>,
) -> bool {
    match outcome {
        Ok(_) => expected is None,
        Err(error) => expected == Some(error.0@),
    }
}

fn find_fragment<'a>(
    fragments: &'a Vec<VulkanDistributedSelectedResourceFragmentPlan>,
    resource_index: usize,
) -> (found: Option<&'a VulkanDistributedSelectedResourceFragmentPlan>)
    ensures
        match found {
            Some(fragment) => find_from(
                fragments.deep_view(),
                0,
                is_of_resource(resource_index),
            ) == Some(fragment.deep_view()),
            None => find_from(fragments.deep_view(), 0, is_of_resource(resource_index)) is None,
        },
{
    let ghost all = fragments.deep_view();
    let ghost condition = is_of_resource(resource_index);
    for index in 0..fragments.len()
        invariant
            all == fragments.deep_view(),
            condition == is_of_resource(resource_index),
            find_from(all, 0, condition) == find_from(all, index as nat, condition),
    {
        assert(all[index as int] == fragments@[index as int].deep_view());
        if fragments[index].resource_index == resource_index {
            return Some(&fragments[index]);
        }
    }
    None
}

fn list_held_ranges(
    shards: &Vec<VulkanDistributedDispatchShard>,
    selector_id: &String,
    resource_index: usize,
) -> (ranges: OrderedSet<(usize, (usize, usize))>)
    requires
        forall|i: int|
            0 <= i < shards.len() ==> !mixes_ownership(
                (#[trigger] shards@[i]).deep_view(),
                selector_id@,
            ),
    ensures
        ranges.deep_view() == held_ranges(shards.deep_view(), selector_id@, resource_index),
{
    let ghost all = shards.deep_view();
    let mut ranges: OrderedSet<(usize, (usize, usize))> = OrderedSet::new();
    assert(all.take(0) =~= Seq::empty());
    for index in 0..shards.len()
        invariant
            all == shards.deep_view(),
            forall|i: int|
                0 <= i < shards.len() ==> !mixes_ownership(
                    (#[trigger] shards@[i]).deep_view(),
                    selector_id@,
                ),
            ranges.deep_view() == held_ranges(
                all.take(index as int),
                selector_id@,
                resource_index,
            ),
    {
        let shard = &shards[index];
        assert(all[index as int] == shard.deep_view());
        assert(all.take(index as int + 1).drop_last() =~= all.take(index as int));
        assert(!mixes_ownership(shards@[index as int].deep_view(), selector_id@));
        match shard.selected_resource_fragments.get(selector_id) {
            None => {},
            Some(fragments) => match find_fragment(fragments, resource_index) {
                None => {},
                Some(fragment) => {
                    ranges.insert((fragment.logical_start, (fragment.logical_count, index)));
                },
            },
        }
    }
    assert(all.take(all.len() as int) =~= all);
    ranges
}

fn check_fragments(
    dispatch: &VulkanDistributedDispatchPlan,
    selector_id: &String,
    resource_index: usize,
    prefix: &String,
) -> (outcome: Result<(), VulkanDistributedPlanError>)
    requires
        forall|i: int|
            0 <= i < dispatch.shards.len() ==> !mixes_ownership(
                (#[trigger] dispatch.shards@[i]).deep_view(),
                selector_id@,
            ),
    ensures
        fault_agrees(
            outcome,
            fragment_fault(dispatch.deep_view(), selector_id@, resource_index, prefix@),
        ),
{
    let ranges = list_held_ranges(&dispatch.shards, selector_id, resource_index);
    let count: usize = ranges.len();
    let ghost all = ranges.listing();
    let ghost gap = prefix@ + " leaves a fragmented selector gap for resource "@ + decimal_text(
        resource_index as nat,
    );
    let mut frontier: usize = 0;
    for index in 0..count
        invariant
            count == all.len(),
            all == ranges.listing(),
            all == ordered_members::<(usize, (usize, usize))>(
                held_ranges(dispatch.deep_view().shards, selector_id@, resource_index),
            ),
            gap == prefix@ + " leaves a fragmented selector gap for resource "@ + decimal_text(
                resource_index as nat,
            ),
            covered_from(all, 0, 0, gap) == covered_from(all, index as nat, frontier, gap),
    {
        let range = ranges.member_at(index);
        if range.0 != frontier {
            return exact_case_error(
                crate::text::join3(
                    prefix.as_str(),
                    " leaves a fragmented selector gap for resource ",
                    decimal(resource_index).as_str(),
                ),
            );
        }
        match frontier.checked_add(range.1.0) {
            None => {
                return exact_case_error(
                    "exact selected-resource fragment coverage overflowed".to_owned(),
                );
            },
            Some(next) => {
                frontier = next;
            },
        }
    }
    if frontier != dispatch.output_rows {
        return exact_case_error(
            crate::text::join3(
                prefix.as_str(),
                " does not cover the full fragment extent for resource ",
                decimal(resource_index).as_str(),
            ),
        );
    }
    Ok(())
}

fn find_mixed(shards: &Vec<VulkanDistributedDispatchShard>, selector_id: &String) -> (result: bool)
    ensures
        result == (exists|i: int|
            0 <= i < shards.deep_view().len() && mixes_ownership(
                #[trigger] shards.deep_view()[i],
                selector_id@,
            )),
{
    let ghost all = shards.deep_view();
    for index in 0..shards.len()
        invariant
            all == shards.deep_view(),
            forall|i: int| 0 <= i < index ==> !mixes_ownership(#[trigger] all[i], selector_id@),
    {
        let shard = &shards[index];
        assert(all[index as int] == shard.deep_view());
        if !shard.selected_resource_indices.is_empty()
            || shard.selected_resource_fragments.get(selector_id).is_none() {
            assert(mixes_ownership(all[index as int], selector_id@));
            return true;
        }
    }
    false
}

fn check_fragmented_partition(
    dispatch: &VulkanDistributedDispatchPlan,
    partition: &VulkanDistributedSelectedResourcePartitionPlan,
    prefix: &String,
) -> (outcome: Result<(), VulkanDistributedPlanError>)
    requires
        partition.parameter_partitions.len() > 0,
    ensures
        fault_agrees(
            outcome,
            partition_fault(dispatch.deep_view(), partition.deep_view(), prefix@),
        ),
{
    assert(partition.deep_view().parameter_partitions.len() > 0);
    if find_mixed(&dispatch.shards, &partition.selector_id) {
        return exact_case_error(
            crate::text::join3(
                prefix.as_str(),
                " mixes whole-resource and fragment ownership for selector ",
                quoted(partition.selector_id.as_str()).as_str(),
            ),
        );
    }
    assert forall|i: int| 0 <= i < dispatch.shards.len() implies !mixes_ownership(
        (#[trigger] dispatch.shards@[i]).deep_view(),
        partition.selector_id@,
    ) by {
        assert(dispatch.shards.deep_view()[i] == dispatch.shards@[i].deep_view());
    }
    for index in 0..partition.resource_count
        invariant
            forall|i: int|
                0 <= i < dispatch.shards.len() ==> !mixes_ownership(
                    (#[trigger] dispatch.shards@[i]).deep_view(),
                    partition.selector_id@,
                ),
            partition_fault(dispatch.deep_view(), partition.deep_view(), prefix@)
                == fragment_fault_from(
                dispatch.deep_view(),
                partition.deep_view(),
                prefix@,
                index as nat,
            ),
    {
        match check_fragments(dispatch, &partition.selector_id, index, prefix) {
            Err(error) => {
                return Err(error);
            },
            Ok(_) => {},
        }
    }
    Ok(())
}

/// At most two.
pub open spec fn capped(count: nat) -> usize {
    if count >= 2 {
        2
    } else {
        count as usize
    }
}

/// The counts are how often each resource occurs, up to two.
pub open spec fn counts_owners(owners: Seq<usize>, owned: Seq<usize>) -> bool {
    forall|resource: int|
        0 <= resource < owners.len() ==> #[trigger] owners[resource] == capped(
            occurrences(owned, resource as usize),
        )
}

fn count_owners(
    owners: &mut Vec<usize>,
    indices: &Vec<usize>,
    Ghost(earlier): Ghost<Seq<usize>>,
) -> (stray:
    Option<usize>)
    requires
        counts_owners(old(owners)@, earlier),
    ensures
        final(owners).len() == old(owners).len(),
        stray == stray_from(indices.deep_view(), old(owners).len(), 0),
        stray is None ==> counts_owners(final(owners)@, earlier + indices.deep_view()),
{
    let ghost all = indices.deep_view();
    let resource_count: usize = owners.len();
    assert(earlier + all.take(0) =~= earlier);
    for index in 0..indices.len()
        invariant
            all == indices.deep_view(),
            resource_count == owners.len(),
            resource_count == old(owners).len(),
            stray_from(all, resource_count, 0) == stray_from(all, resource_count, index as nat),
            counts_owners(owners@, earlier + all.take(index as int)),
    {
        let resource: usize = indices[index];
        assert(all[index as int] == resource);
        if resource >= resource_count {
            return Some(resource);
        }
        let ghost before = earlier + all.take(index as int);
        let ghost now = earlier + all.take(index as int + 1);
        let ghost counts = owners@;
        assert(now.drop_last() =~= before);
        assert(now.last() == resource);
        if owners[resource] < 2 {
            let count: usize = owners[resource] + 1;
            owners[resource] = count;
        }
        assert forall|other: int| 0 <= other < owners@.len() implies #[trigger] owners@[other]
            == capped(occurrences(now, other as usize)) by {
            assert(counts[other] == capped(occurrences(before, other as usize)));
        }
    }
    assert(all.take(all.len() as int) =~= all);
    None
}

fn no_owners(resource_count: usize) -> (owners: Vec<usize>)
    ensures
        owners.len() == resource_count,
        counts_owners(owners@, Seq::empty()),
{
    let mut owners: Vec<usize> = Vec::new();
    for index in 0..resource_count
        invariant
            owners.len() == index,
            forall|i: int| 0 <= i < index ==> owners@[i] == 0,
    {
        owners.push(0);
    }
    owners
}

fn check_owned_partition(
    dispatch: &VulkanDistributedDispatchPlan,
    partition: &VulkanDistributedSelectedResourcePartitionPlan,
    prefix: &String,
) -> (outcome: Result<(), VulkanDistributedPlanError>)
    requires
        partition.parameter_partitions.len() == 0,
    ensures
        fault_agrees(
            outcome,
            partition_fault(dispatch.deep_view(), partition.deep_view(), prefix@),
        ),
{
    let ghost all = dispatch.deep_view().shards;
    let ghost model = partition.deep_view();
    let ghost selector_id = partition.selector_id@;
    let mut owners = no_owners(partition.resource_count);
    assert(all.take(0) =~= Seq::empty());
    for index in 0..dispatch.shards.len()
        invariant
            all == dispatch.shards.deep_view(),
            all == dispatch.deep_view().shards,
            model == partition.deep_view(),
            model.parameter_partitions.len() == 0,
            selector_id == partition.selector_id@,
            owners.len() == partition.resource_count,
            counts_owners(owners@, owned_resources(all.take(index as int), selector_id)),
            ownership_fault_from(all, model, prefix@, 0) == ownership_fault_from(
                all,
                model,
                prefix@,
                index as nat,
            ),
    {
        let shard = &dispatch.shards[index];
        assert(all[index as int] == shard.deep_view());
        assert(all.take(index as int + 1).drop_last() =~= all.take(index as int));
        match shard.selected_resource_indices.get(&partition.selector_id) {
            None => {
                return exact_case_error(
                    join5(
                        prefix.as_str(),
                        " omitted selector ",
                        quoted(partition.selector_id.as_str()).as_str(),
                        " on participant ",
                        quoted(shard.device_id.as_str()).as_str(),
                    ),
                );
            },
            Some(indices) => {
                match count_owners(
                    &mut owners,
                    indices,
                    Ghost(owned_resources(all.take(index as int), selector_id)),
                ) {
                    Some(resource) => {
                        return exact_case_error(
                            join6(
                                prefix.as_str(),
                                " assigns selector ",
                                quoted(partition.selector_id.as_str()).as_str(),
                                " resource ",
                                decimal(resource).as_str(),
                                " out of range",
                            ),
                        );
                    },
                    None => {},
                }
            },
        }
    }
    assert(all.take(all.len() as int) =~= all);
    let ghost owned = owned_resources(all, selector_id);
    for resource in 0..owners.len()
        invariant
            owners.len() == partition.resource_count,
            all == dispatch.deep_view().shards,
            model == partition.deep_view(),
            model.parameter_partitions.len() == 0,
            owned == owned_resources(all, model.selector_id),
            counts_owners(owners@, owned),
            ownership_fault_from(all, model, prefix@, 0) is None,
            forall|r: int| 0 <= r < resource ==> owners@[r] == 1,
    {
        if owners[resource] != 1 {
            assert(owners@[resource as int] == capped(occurrences(owned, resource)));
            assert(occurrences(owned, resource) != 1);
            assert(!owned_once(all, model));
            return exact_case_error(
                crate::text::join4(
                    prefix.as_str(),
                    " must assign every selector ",
                    quoted(partition.selector_id.as_str()).as_str(),
                    " resource exactly once",
                ),
            );
        }
    }
    assert forall|resource: usize| resource < model.resource_count implies #[trigger] occurrences(
        owned_resources(all, model.selector_id),
        resource,
    ) == 1 by {
        assert(owners@[resource as int] == capped(occurrences(owned, resource)));
    }
    Ok(())
}

/// The resources of every selector of a dispatch are owned exactly once: each as a
/// whole by one shard, or each in parts that follow on each other over all rows.
pub fn validate_exact_selected_resource_coverage(
    dispatch: &VulkanDistributedDispatchPlan,
    component_id: &str,
    dispatch_ordinal: usize,
) -> (outcome: Result<(), VulkanDistributedPlanError>)
    ensures
        fault_agrees(
            outcome,
            coverage_fault_from(
                dispatch.deep_view(),
                dispatch_case_text(component_id@, dispatch_ordinal),
                0,
            ),
        ),
{
    let prefix = name_dispatch_case(component_id, dispatch_ordinal);
    let ghost all = dispatch.deep_view().selected_resource_partitions;
    for index in 0..dispatch.selected_resource_partitions.len()
        invariant
            prefix@ == dispatch_case_text(component_id@, dispatch_ordinal),
            all == dispatch.selected_resource_partitions.deep_view(),
            all == dispatch.deep_view().selected_resource_partitions,
            coverage_fault_from(dispatch.deep_view(), prefix@, 0) == coverage_fault_from(
                dispatch.deep_view(),
                prefix@,
                index as nat,
            ),
    {
        let partition = &dispatch.selected_resource_partitions[index];
        assert(all[index as int] == partition.deep_view());
        let checked = if partition.parameter_partitions.len() > 0 {
            check_fragmented_partition(dispatch, partition, &prefix)
        } else {
            check_owned_partition(dispatch, partition, &prefix)
        };
        match checked {
            Err(error) => {
                return Err(error);
            },
            Ok(_) => {},
        }
    }
    Ok(())
}

} // verus!
