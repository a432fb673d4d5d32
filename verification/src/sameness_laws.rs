//! Laws of what is the same but for its labels.
use vstd::prelude::*;

use crate::dispatch_shards::{
    VulkanDistributedDispatchShardModel, VulkanDistributedSelectedResourceFragmentPlanModel,
};
use crate::exact_coverage::{
    fragment_identity, parameter_identity, runtime_fragments, same_fragment, same_fragment_list,
    same_fragments, same_operation, same_operations, same_parameter, FragmentsModel,
};
use crate::execution_plans::VulkanDistributedSelectedResourcePartitionPlanModel;
use crate::placement::{
    VulkanPlacementDispatchGeometryModel, VulkanPlacementOperationGeometryModel,
    VulkanPlacementSelectedResourceFragmentIdentityModel,
    VulkanPlacementSelectedResourceParameterFragmentIdentityModel,
};

verus! {

/// The operation under another label.
pub open spec fn labelled(
    operation: VulkanPlacementOperationGeometryModel,
    label: Seq<char>,
) -> VulkanPlacementOperationGeometryModel {
    match operation {
        VulkanPlacementOperationGeometryModel::Dispatch { geometry } =>
            VulkanPlacementOperationGeometryModel::Dispatch {
                geometry: VulkanPlacementDispatchGeometryModel { contract_id: label, ..geometry },
            },
        VulkanPlacementOperationGeometryModel::DirectedTransfer { label: _, byte_count } =>
            VulkanPlacementOperationGeometryModel::DirectedTransfer { label, byte_count },
        VulkanPlacementOperationGeometryModel::Reduction {
            label: _,
            element_count,
            element_byte_count,
            participant_count,
        } => VulkanPlacementOperationGeometryModel::Reduction {
            label,
            element_count,
            element_byte_count,
            participant_count,
        },
        VulkanPlacementOperationGeometryModel::LazyLoadWave {
            label: _,
            resource_count,
            byte_count,
        } => VulkanPlacementOperationGeometryModel::LazyLoadWave {
            label,
            resource_count,
            byte_count,
        },
        VulkanPlacementOperationGeometryModel::SelectedResourceTransaction {
            label: _,
            resource_execution_class_id,
            selector_selection_count,
            executed_resource_occurrence_count,
        } => VulkanPlacementOperationGeometryModel::SelectedResourceTransaction {
            label,
            resource_execution_class_id,
            selector_selection_count,
            executed_resource_occurrence_count,
        },
    }
}

/// Two operations are the same exactly where they are one operation under one label.
pub proof fn law_same_operations_differ_in_their_label(
    left: VulkanPlacementOperationGeometryModel,
    right: VulkanPlacementOperationGeometryModel,
    label: Seq<char>,
)
    ensures
        same_operation(left, right) <==> labelled(left, label) == labelled(right, label),
{
}

/// Two lists of operations are the same exactly where they are as long and the same place by
/// place.
pub proof fn law_same_operations_are_the_same_in_turn(
    left: Seq<VulkanPlacementOperationGeometryModel>,
    right: Seq<VulkanPlacementOperationGeometryModel>,
    label: Seq<char>,
)
    ensures
        same_operations(left, right) <==> left.len() == right.len() && forall|i: int|
            0 <= i < left.len() ==> labelled(#[trigger] left[i], label) == labelled(
                right[i],
                label,
            ),
{
    assert forall|i: int| 0 <= i < left.len() && left.len() == right.len() implies (
    same_operation(#[trigger] left[i], right[i]) <==> labelled(left[i], label) == labelled(
        right[i],
        label,
    )) by {
        law_same_operations_differ_in_their_label(left[i], right[i], label);
    }
}

/// The parameter of a resource under another name.
pub open spec fn parameter_named(
    parameter: VulkanPlacementSelectedResourceParameterFragmentIdentityModel,
    name: Seq<char>,
) -> VulkanPlacementSelectedResourceParameterFragmentIdentityModel {
    VulkanPlacementSelectedResourceParameterFragmentIdentityModel {
        resource_id: name,
        ..parameter
    }
}

/// The fragment of a resource under another name.
pub open spec fn fragment_named(
    fragment: VulkanPlacementSelectedResourceFragmentIdentityModel,
    name: Seq<char>,
) -> VulkanPlacementSelectedResourceFragmentIdentityModel {
    VulkanPlacementSelectedResourceFragmentIdentityModel {
        atomic_group_id: name,
        parameters: Seq::new(
            fragment.parameters.len(),
            |i: int| parameter_named(fragment.parameters[i], name),
        ),
        ..fragment
    }
}

/// Two fragments are the same exactly where they are one fragment under one name.
pub proof fn law_same_fragments_differ_in_their_name(
    left: VulkanPlacementSelectedResourceFragmentIdentityModel,
    right: VulkanPlacementSelectedResourceFragmentIdentityModel,
    name: Seq<char>,
)
    ensures
        same_fragment(left, right) <==> fragment_named(left, name) == fragment_named(right, name),
{
    let ours = fragment_named(left, name);
    let theirs = fragment_named(right, name);
    if same_fragment(left, right) {
        assert(ours.parameters =~= theirs.parameters) by {
            assert forall|i: int| 0 <= i < left.parameters.len() implies ours.parameters[i]
                == theirs.parameters[i] by {
                assert(same_parameter(left.parameters[i], right.parameters[i]));
            }
        }
    }
    if ours == theirs {
        assert(ours.parameters.len() == theirs.parameters.len());
        assert forall|i: int| 0 <= i < left.parameters.len() implies same_parameter(
            #[trigger] left.parameters[i],
            right.parameters[i],
        ) by {
            assert(ours.parameters[i] == theirs.parameters[i]);
            assert(parameter_named(left.parameters[i], name) == parameter_named(
                right.parameters[i],
                name,
            ));
        }
    }
}

/// The fragments of partitions are the same exactly where the same partitions have as many,
/// the same place by place.
pub proof fn law_same_fragments_are_the_same_in_turn(
    left: FragmentsModel,
    right: FragmentsModel,
    partition: usize,
    place: int,
    name: Seq<char>,
)
    requires
        same_fragments(left, right),
    ensures
        left.contains_key(partition) <==> right.contains_key(partition),
        left.contains_key(partition) ==> left[partition].len() == right[partition].len(),
        left.contains_key(partition) && 0 <= place < left[partition].len() ==> fragment_named(
            left[partition][place],
            name,
        ) == fragment_named(right[partition][place], name),
{
    assert(left.dom().contains(partition) <==> right.dom().contains(partition));
    if left.contains_key(partition) && 0 <= place < left[partition].len() {
        assert(same_fragment_list(left[partition], right[partition]));
        law_same_fragments_differ_in_their_name(
            left[partition][place],
            right[partition][place],
            name,
        );
    }
}

/// The fragment is identified with all that it holds.
pub open spec fn identifies(
    fragment: VulkanDistributedSelectedResourceFragmentPlanModel,
    identity: VulkanPlacementSelectedResourceFragmentIdentityModel,
) -> bool {
    &&& identity.resource_index == fragment.resource_index
    &&& identity.atomic_group_id == fragment.atomic_group_id
    &&& identity.logical_start == fragment.logical_start
    &&& identity.logical_count == fragment.logical_count
    &&& identity.parameters.len() == fragment.parameters.len()
    &&& forall|p: int|
        0 <= p < fragment.parameters.len() ==> (#[trigger] identity.parameters[p]).parameter_slot
            == fragment.parameters[p].parameter_slot && identity.parameters[p].resource_id
            == fragment.parameters[p].resource_id && identity.parameters[p].resource_byte_count
            == fragment.parameters[p].resource_byte_count && identity.parameters[p].byte_offset
            == fragment.parameters[p].byte_offset && identity.parameters[p].byte_count
            == fragment.parameters[p].byte_count
}

/// The fragments of a shard are identified under the place of the partition that their
/// selector has, all of them, with all that they hold; a selector that no partition has is
/// refused.
pub proof fn law_fragments_are_identified_by_their_partition(
    partitions: Seq<VulkanDistributedSelectedResourcePartitionPlanModel>,
    shard: VulkanDistributedDispatchShardModel,
    ordinal: usize,
)
    requires
        runtime_fragments(partitions, shard) is Ok,
        ordinal < partitions.len(),
    ensures
        ({
            let fragments = runtime_fragments(partitions, shard)->Ok_0;
            let selector_id = partitions[ordinal as int].selector_id;
            let own = shard.selected_resource_fragments[selector_id];
            &&& fragments.contains_key(ordinal)
                <==> shard.selected_resource_fragments.contains_key(selector_id)
            &&& fragments.contains_key(ordinal) ==> fragments[ordinal].len() == own.len()
            &&& fragments.contains_key(ordinal) ==> forall|f: int|
                0 <= f < own.len() ==> identifies(own[f], #[trigger] fragments[ordinal][f])
            &&& forall|other: Seq<char>| #[trigger]
                shard.selected_resource_fragments.contains_key(other) ==> exists|i: int|
                    0 <= i < partitions.len() && (#[trigger] partitions[i]).selector_id == other
        }),
{
    let fragments = runtime_fragments(partitions, shard)->Ok_0;
    let selector_id = partitions[ordinal as int].selector_id;
    let own = shard.selected_resource_fragments[selector_id];
    if fragments.contains_key(ordinal) {
        assert forall|f: int| 0 <= f < own.len() implies identifies(
            own[f],
            #[trigger] fragments[ordinal][f],
        ) by {
            let identity = fragments[ordinal][f];
            assert(identity == fragment_identity()(own[f]));
            assert forall|p: int| 0 <= p < own[f].parameters.len() implies (
            #[trigger] identity.parameters[p]) == parameter_identity()(own[f].parameters[p]) by {}
        }
    }
    assert forall|other: Seq<char>| #[trigger]
        shard.selected_resource_fragments.contains_key(other) implies exists|i: int|
        0 <= i < partitions.len() && (#[trigger] partitions[i]).selector_id == other by {
        assert(crate::exact_coverage::knows_selector(partitions, other));
    }
}

} // verus!
