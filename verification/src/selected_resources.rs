//! Resolving the resources that a dispatch selects while it runs.
use vstd::prelude::*;

use crate::arithmetic::{narrow, narrowed};
use crate::contracts::{
    PhysicalExecutionContract, PhysicalExecutionContractModel, SelectedResourcePartition,
    SelectedResourcePartitionModel,
};
use crate::errors::{plan_agrees, VulkanDistributedPlanError};
use crate::execution_plans::{
    VulkanDistributedSelectedResourcePartitionPlan,
    VulkanDistributedSelectedResourcePartitionPlanModel,
};
use crate::ordered::OrderedMap;
use crate::planning::dispatch_error;
use crate::prepared::{
    CompiledAtomicGroup, CompiledAtomicGroupModel, CompiledResource,
    CompiledResourceBindingMapping, CompiledResourceBindingMappingModel,
    CompiledResourceBindingModel, CompiledResourceLifetime, CompiledResourceModel,
    CompiledResourceResidencyContract, CompiledResourceResidencyContractModel,
    CompiledResourceSelector, CompiledResourceSelectorMapping,
    CompiledResourceSelectorMappingModel, CompiledResourceSelectorModel, CompiledSourceByteCount,
    CompiledSourceByteCountModel, VulkanPreparedDispatch, VulkanPreparedDispatchModel,
};
use crate::sequences::{append, find_last, fold_from, holds, kept, lemma_kept_step};
use crate::text::{
    debug_text, decimal, decimal_text, decimal_u64, join2, join3, join4, join5, join6, join7,
    join8, quoted,
};
use crate::values::PlainValue;

verus! {

/// The selector serves a selection signal of a component in a scope.
pub open spec fn selector_serves(
    execution_scope: Seq<char>,
    component_id: Seq<char>,
    selection_signal: Seq<char>,
) -> spec_fn(CompiledResourceSelectorModel) -> bool {
    |selector: CompiledResourceSelectorModel|
        selector.execution_scope == execution_scope && selector.component_id == component_id
            && selector.selection_signal == selection_signal
}

/// The group has the name.
pub open spec fn group_named(id: Seq<char>) -> spec_fn(CompiledAtomicGroupModel) -> bool {
    |group: CompiledAtomicGroupModel| group.id == id
}

/// The resource has the name.
pub open spec fn resource_named(id: Seq<char>) -> spec_fn(CompiledResourceModel) -> bool {
    |resource: CompiledResourceModel| resource.id == id
}

/// Adds a binding of selected resources: selector index and parameter slot lead
/// to group and resource.
pub open spec fn slot_step(
    dispatch: VulkanPreparedDispatchModel,
    execution_scope: Seq<char>,
    selection_signal: Seq<char>,
) -> spec_fn(
    Map<(usize, usize), (Seq<char>, Seq<char>)>,
    CompiledResourceBindingModel,
) -> Result<Map<(usize, usize), (Seq<char>, Seq<char>)>, Seq<char>> {
    let own_signal = selection_signal;
    |found: Map<(usize, usize), (Seq<char>, Seq<char>)>, binding: CompiledResourceBindingModel|
        match binding.mapping {
            CompiledResourceBindingMappingModel::SelectedAtomicGroup {
                atomic_group_id,
                resource_id,
                selection_signal,
                selector_index,
                parameter_slot,
            } => if binding.execution_scope != execution_scope || binding.component_id
                != dispatch.component_id || binding.node_id != dispatch.node_id || selection_signal
                != own_signal {
                Ok(found)
            } else if found.contains_key((selector_index, parameter_slot)) {
                Err(dispatch.message("selected residency repeats a selector parameter slot"@))
            } else {
                Ok(found.insert((selector_index, parameter_slot), (atomic_group_id, resource_id)))
            },
            _ => Ok(found),
        }
}

/// What is wrong with the parameter slots of one selected resource from a slot on.
pub open spec fn slots_fault_from(
    dispatch: VulkanPreparedDispatchModel,
    bindings: Map<(usize, usize), (Seq<char>, Seq<char>)>,
    group: CompiledAtomicGroupModel,
    group_id: Seq<char>,
    selector_index: usize,
    slot: nat,
    slots: nat,
) -> Option<Seq<char>>
    decreases slots - slot,
{
    if slot >= slots {
        None
    } else if !bindings.contains_key((selector_index, slot as usize)) {
        Some(dispatch.message("selected residency parameter slots are incomplete"@))
    } else if bindings[(selector_index, slot as usize)].0 != group_id
        || !group.resource_ids.contains(bindings[(selector_index, slot as usize)].1) {
        Some(
            dispatch.message(
                "selected residency slot "@ + decimal_text(selector_index as nat) + ":"@
                    + decimal_text(slot) + " escapes atomic group "@ + debug_text(group_id),
            ),
        )
    } else {
        slots_fault_from(dispatch, bindings, group, group_id, selector_index, slot + 1, slots)
    }
}

/// Adds the bytes of one resource to the bytes of its group.
pub open spec fn group_bytes_step(
    dispatch: VulkanPreparedDispatchModel,
    resources: Seq<CompiledResourceModel>,
) -> spec_fn(usize, Seq<char>) -> Result<usize, Seq<char>> {
    |total: usize, resource_id: Seq<char>|
        match find_last(resources, resource_named(resource_id)) {
            None => Err(
                dispatch.message(
                    "selected atomic group references missing resource "@ + debug_text(
                        resource_id,
                    ),
                ),
            ),
            Some(resource) => match resource.source_byte_count {
                CompiledSourceByteCountModel::Unavailable { reason } => Err(
                    dispatch.message(reason),
                ),
                CompiledSourceByteCountModel::Known { byte_count } => if total + byte_count
                    > usize::MAX {
                    Err(dispatch.message("selected atomic group byte count overflowed"@))
                } else {
                    Ok((total + byte_count) as usize)
                },
            },
        }
}

/// The bytes of the group that a selector lists at an index, or the text of the
/// error.
pub open spec fn listed_group_bytes(
    dispatch: VulkanPreparedDispatchModel,
    residency: CompiledResourceResidencyContractModel,
    selector_id: Seq<char>,
    bindings: Map<(usize, usize), (Seq<char>, Seq<char>)>,
    parameters_per_resource: usize,
    selector_index: usize,
    group_id: Seq<char>,
) -> Result<usize, Seq<char>> {
    match find_last(residency.atomic_groups, group_named(group_id)) {
        None => Err(
            dispatch.message(
                "selector "@ + debug_text(selector_id) + " references missing atomic group "@
                    + debug_text(group_id),
            ),
        ),
        Some(group) => if !(group.lifetime is Dynamic) {
            Err(
                dispatch.message(
                    "selected atomic group "@ + debug_text(group_id) + " is not dynamic"@,
                ),
            )
        } else {
            match slots_fault_from(
                dispatch,
                bindings,
                group,
                group_id,
                selector_index,
                0,
                parameters_per_resource as nat,
            ) {
                Some(message) => Err(message),
                None => fold_from(
                    group.resource_ids,
                    0,
                    0usize,
                    group_bytes_step(dispatch, residency.resources),
                ),
            }
        },
    }
}

/// The bytes of every group that a selector lists, from an index on, behind those
/// found already; or the text of the error.
pub open spec fn listed_groups_bytes_from(
    dispatch: VulkanPreparedDispatchModel,
    residency: CompiledResourceResidencyContractModel,
    selector_id: Seq<char>,
    bindings: Map<(usize, usize), (Seq<char>, Seq<char>)>,
    parameters_per_resource: usize,
    group_ids: Seq<Seq<char>>,
    index: nat,
    found: Seq<usize>,
) -> Result<Seq<usize>, Seq<char>>
    decreases group_ids.len() - index,
{
    if index >= group_ids.len() {
        Ok(found)
    } else {
        match listed_group_bytes(
            dispatch,
            residency,
            selector_id,
            bindings,
            parameters_per_resource,
            index as usize,
            group_ids[index as int],
        ) {
            Err(message) => Err(message),
            Ok(bytes) => listed_groups_bytes_from(
                dispatch,
                residency,
                selector_id,
                bindings,
                parameters_per_resource,
                group_ids,
                index + 1,
                found.push(bytes),
            ),
        }
    }
}

/// The number of resources of a partition as `usize`, the largest one where it
/// does not fit.
pub open spec fn declared_resource_count(partition: SelectedResourcePartitionModel) -> usize {
    match narrowed(partition.resource_count) {
        Some(count) => count,
        None => usize::MAX,
    }
}

/// The plan of a partition for the selector that serves it, or the text of the
/// error.
pub open spec fn selector_partition(
    dispatch: VulkanPreparedDispatchModel,
    residency: CompiledResourceResidencyContractModel,
    execution_scope: Seq<char>,
    partition: SelectedResourcePartitionModel,
    selector: CompiledResourceSelectorModel,
) -> Result<VulkanDistributedSelectedResourcePartitionPlanModel, Seq<char>> {
    if selector.resource_count != declared_resource_count(partition) {
        Err(
            dispatch.message(
                "selected resource partition "@ + debug_text(partition.selection_signal)
                    + " declares "@ + decimal_text(partition.resource_count as nat)
                    + " resources but selector "@ + debug_text(selector.id) + " declares "@
                    + decimal_text(selector.resource_count as nat),
            ),
        )
    } else {
        match selector.mapping {
            CompiledResourceSelectorMappingModel::GroupTable { atomic_group_ids } => {
                grouped_partition(
                    dispatch,
                    residency,
                    execution_scope,
                    partition,
                    selector,
                    atomic_group_ids,
                )
            },
            _ => Err(
                dispatch.message(
                    "selected resource partition "@ + debug_text(partition.selection_signal)
                        + " requires an atomic group table"@,
                ),
            ),
        }
    }
}

/// The plan of a partition for a selector over a table of atomic groups, or the
/// text of the error.
pub open spec fn grouped_partition(
    dispatch: VulkanPreparedDispatchModel,
    residency: CompiledResourceResidencyContractModel,
    execution_scope: Seq<char>,
    partition: SelectedResourcePartitionModel,
    selector: CompiledResourceSelectorModel,
    atomic_group_ids: Seq<Seq<char>>,
) -> Result<VulkanDistributedSelectedResourcePartitionPlanModel, Seq<char>> {
    if atomic_group_ids.len() != selector.resource_count {
        Err(
            dispatch.message(
                "selector "@ + debug_text(selector.id) + " has "@ + decimal_text(
                    atomic_group_ids.len(),
                ) + " atomic groups for "@ + decimal_text(selector.resource_count as nat)
                    + " resources"@,
            ),
        )
    } else if narrowed(partition.parameters_per_resource) is None {
        Err(dispatch.message("selected parameter count exceeds usize"@))
    } else {
        let parameters_per_resource = narrowed(partition.parameters_per_resource)->0;
        match fold_from(
            residency.bindings,
            0,
            Map::empty(),
            slot_step(dispatch, execution_scope, partition.selection_signal),
        ) {
            Err(message) => Err(message),
            Ok(bindings) => if selector.resource_count * parameters_per_resource > usize::MAX {
                Err(dispatch.message("selected residency binding count overflowed"@))
            } else if bindings.dom().len() != selector.resource_count * parameters_per_resource {
                Err(
                    dispatch.message(
                        "selected resource partition "@ + debug_text(partition.selection_signal)
                            + " resolves "@ + decimal_text(bindings.dom().len())
                            + " parameter slots, expected "@ + decimal_text(
                            (selector.resource_count * parameters_per_resource) as nat,
                        ),
                    ),
                )
            } else {
                match listed_groups_bytes_from(
                    dispatch,
                    residency,
                    selector.id,
                    bindings,
                    parameters_per_resource,
                    atomic_group_ids,
                    0,
                    Seq::empty(),
                ) {
                    Err(message) => Err(message),
                    Ok(atomic_group_byte_counts) => if narrowed(
                        partition.address_table_binding,
                    ) is None || narrowed(partition.parameter_slots_binding) is None {
                        Err(dispatch.message("dynamic binding exceeds usize"@))
                    } else {
                        Ok(
                            VulkanDistributedSelectedResourcePartitionPlanModel {
                                execution_scope,
                                selector_id: selector.id,
                                node_id: selector.node_id,
                                domain_id: selector.domain_id,
                                selection_signal: partition.selection_signal,
                                address_table_binding: narrowed(
                                    partition.address_table_binding,
                                )->0,
                                parameter_slots_binding: narrowed(
                                    partition.parameter_slots_binding,
                                )->0,
                                resource_count: selector.resource_count,
                                parameters_per_resource,
                                parameter_partitions: Seq::empty(),
                                selection_count_per_activation:
                                    selector.selection_count_per_activation,
                                atomic_group_ids,
                                atomic_group_byte_counts,
                            },
                        )
                    },
                }
            },
        }
    }
}

/// The plan of a partition of selected resources, or the text of the error.
pub open spec fn resolved_partition(
    dispatch: VulkanPreparedDispatchModel,
    residency: CompiledResourceResidencyContractModel,
    execution_scope: Seq<char>,
    partition: SelectedResourcePartitionModel,
) -> Result<VulkanDistributedSelectedResourcePartitionPlanModel, Seq<char>> {
    let matching = kept(
        residency.selectors,
        selector_serves(execution_scope, dispatch.component_id, partition.selection_signal),
    );
    if matching.len() != 1 {
        Err(
            dispatch.message(
                "selected resource partition "@ + debug_text(partition.selection_signal)
                    + " resolves "@ + decimal_text(matching.len()) + " residency selectors"@,
            ),
        )
    } else {
        selector_partition(dispatch, residency, execution_scope, partition, matching[0])
    }
}

/// Adds the plan of one partition.
pub open spec fn partition_step(
    dispatch: VulkanPreparedDispatchModel,
    residency: CompiledResourceResidencyContractModel,
    execution_scope: Seq<char>,
) -> spec_fn(
    Seq<VulkanDistributedSelectedResourcePartitionPlanModel>,
    SelectedResourcePartitionModel,
) -> Result<Seq<VulkanDistributedSelectedResourcePartitionPlanModel>, Seq<char>> {
    |found: Seq<VulkanDistributedSelectedResourcePartitionPlanModel>,
        partition: SelectedResourcePartitionModel|
        match resolved_partition(dispatch, residency, execution_scope, partition) {
            Err(message) => Err(message),
            Ok(plan) => Ok(found.push(plan)),
        }
}

/// The plans of the selected resources of a contract, or the text of the error.
pub open spec fn resolved_partitions(
    dispatch: VulkanPreparedDispatchModel,
    contract: PhysicalExecutionContractModel,
    resource_context: Option<(Seq<char>, CompiledResourceResidencyContractModel)>,
) -> Result<Seq<VulkanDistributedSelectedResourcePartitionPlanModel>, Seq<char>> {
    if contract.selected_resource_partitions.len() == 0 {
        Ok(Seq::empty())
    } else {
        match resource_context {
            None => Err(
                dispatch.message(
                    "contains selected resources without a compiled atomic residency contract"@,
                ),
            ),
            Some((execution_scope, residency)) => fold_from(
                contract.selected_resource_partitions,
                0,
                Seq::empty(),
                partition_step(dispatch, residency, execution_scope),
            ),
        }
    }
}

fn find_group<'a>(groups: &'a Vec<CompiledAtomicGroup>, id: &String) -> (found: Option<
    &'a CompiledAtomicGroup,
>)
    ensures
        match found {
            Some(group) => find_last(groups.deep_view(), group_named(id@)) == Some(
                group.deep_view(),
            ),
            None => find_last(groups.deep_view(), group_named(id@)) is None,
        },
{
    let ghost all = groups.deep_view();
    let ghost condition = group_named(id@);
    let mut rest: usize = groups.len();
    assert(all.take(all.len() as int) =~= all);
    while rest > 0
        invariant
            all == groups.deep_view(),
            condition == group_named(id@),
            rest <= groups.len(),
            find_last(all, condition) == find_last(all.take(rest as int), condition),
        decreases rest,
    {
        assert(all.take(rest as int).drop_last() =~= all.take(rest as int - 1));
        assert(all[rest as int - 1] == groups@[rest as int - 1].deep_view());
        if groups[rest - 1].id == *id {
            return Some(&groups[rest - 1]);
        }
        rest -= 1;
    }
    None
}

fn find_resource<'a>(resources: &'a Vec<CompiledResource>, id: &String) -> (found: Option<
    &'a CompiledResource,
>)
    ensures
        match found {
            Some(resource) => find_last(resources.deep_view(), resource_named(id@)) == Some(
                resource.deep_view(),
            ),
            None => find_last(resources.deep_view(), resource_named(id@)) is None,
        },
{
    let ghost all = resources.deep_view();
    let ghost condition = resource_named(id@);
    let mut rest: usize = resources.len();
    assert(all.take(all.len() as int) =~= all);
    while rest > 0
        invariant
            all == resources.deep_view(),
            condition == resource_named(id@),
            rest <= resources.len(),
            find_last(all, condition) == find_last(all.take(rest as int), condition),
        decreases rest,
    {
        assert(all.take(rest as int).drop_last() =~= all.take(rest as int - 1));
        assert(all[rest as int - 1] == resources@[rest as int - 1].deep_view());
        if resources[rest - 1].id == *id {
            return Some(&resources[rest - 1]);
        }
        rest -= 1;
    }
    None
}

fn selected_slots(
    dispatch: &VulkanPreparedDispatch,
    residency: &CompiledResourceResidencyContract,
    execution_scope: &String,
    own_signal: &String,
) -> (outcome: Result<OrderedMap<(usize, usize), (String, String)>, VulkanDistributedPlanError>)
    ensures
        plan_agrees(
            outcome,
            fold_from(
                residency.deep_view().bindings,
                0,
                Map::empty(),
                slot_step(dispatch.deep_view(), execution_scope@, own_signal@),
            ),
        ),
{
    let ghost all = residency.deep_view().bindings;
    let ghost step = slot_step(dispatch.deep_view(), execution_scope@, own_signal@);
    let mut bindings: OrderedMap<(usize, usize), (String, String)> = OrderedMap::new();
    for index in 0..residency.bindings.len()
        invariant
            all == residency.deep_view().bindings,
            step == slot_step(dispatch.deep_view(), execution_scope@, own_signal@),
            fold_from(all, 0, Map::empty(), step) == fold_from(
                all,
                index as nat,
                bindings.deep_view(),
                step,
            ),
    {
        let binding = &residency.bindings[index];
        assert(all[index as int] == binding.deep_view());
        match &binding.mapping {
            CompiledResourceBindingMapping::SelectedAtomicGroup {
                atomic_group_id,
                resource_id,
                selection_signal,
                selector_index,
                parameter_slot,
            } => {
                if binding.execution_scope == *execution_scope && binding.component_id
                    == dispatch.component_id && binding.node_id == dispatch.node_id
                    && *selection_signal == *own_signal {
                    let replaced = bindings.insert(
                        (*selector_index, *parameter_slot),
                        (atomic_group_id.clone(), resource_id.clone()),
                    );
                    if replaced.is_some() {
                        return Err(
                            dispatch_error(
                                dispatch,
                                "selected residency repeats a selector parameter slot",
                            ),
                        );
                    }
                }
            },
            _ => {},
        }
    }
    Ok(bindings)
}

fn group_bytes(
    dispatch: &VulkanPreparedDispatch,
    residency: &CompiledResourceResidencyContract,
    selector_id: &String,
    bindings: &OrderedMap<(usize, usize), (String, String)>,
    parameters_per_resource: usize,
    selector_index: usize,
    group_id: &String,
) -> (outcome: Result<usize, VulkanDistributedPlanError>)
    ensures
        plan_agrees(
            outcome,
            listed_group_bytes(
                dispatch.deep_view(),
                residency.deep_view(),
                selector_id@,
                bindings.deep_view(),
                parameters_per_resource,
                selector_index,
                group_id@,
            ),
        ),
{
    let ghost model = dispatch.deep_view();
    let group = match find_group(&residency.atomic_groups, group_id) {
        None => {
            return Err(
                dispatch_error(
                    dispatch,
                    join4(
                        "selector ",
                        quoted(selector_id.as_str()).as_str(),
                        " references missing atomic group ",
                        quoted(group_id.as_str()).as_str(),
                    ).as_str(),
                ),
            );
        },
        Some(group) => group,
    };
    if group.lifetime != CompiledResourceLifetime::Dynamic {
        return Err(
            dispatch_error(
                dispatch,
                join3(
                    "selected atomic group ",
                    quoted(group_id.as_str()).as_str(),
                    " is not dynamic",
                ).as_str(),
            ),
        );
    }
    let ghost group_model = group.deep_view();
    let ghost expected = listed_group_bytes(
        model,
        residency.deep_view(),
        selector_id@,
        bindings.deep_view(),
        parameters_per_resource,
        selector_index,
        group_id@,
    );
    for slot in 0..parameters_per_resource
        invariant
            model == dispatch.deep_view(),
            group_model == group.deep_view(),
            slots_fault_from(
                model,
                bindings.deep_view(),
                group_model,
                group_id@,
                selector_index,
                0,
                parameters_per_resource as nat,
            ) == slots_fault_from(
                model,
                bindings.deep_view(),
                group_model,
                group_id@,
                selector_index,
                slot as nat,
                parameters_per_resource as nat,
            ),
            slots_fault_from(
                model,
                bindings.deep_view(),
                group_model,
                group_id@,
                selector_index,
                0,
                parameters_per_resource as nat,
            ) is Some ==> expected == Err::<usize, Seq<char>>(
                slots_fault_from(
                    model,
                    bindings.deep_view(),
                    group_model,
                    group_id@,
                    selector_index,
                    0,
                    parameters_per_resource as nat,
                )->0,
            ),
            expected == listed_group_bytes(
                model,
                residency.deep_view(),
                selector_id@,
                bindings.deep_view(),
                parameters_per_resource,
                selector_index,
                group_id@,
            ),
    {
        match bindings.get(&(selector_index, slot)) {
            None => {
                return Err(
                    dispatch_error(dispatch, "selected residency parameter slots are incomplete"),
                );
            },
            Some(bound) => {
                if bound.0 != *group_id || !holds(&group.resource_ids, &bound.1) {
                    return Err(
                        dispatch_error(
                            dispatch,
                            join6(
                                "selected residency slot ",
                                decimal(selector_index).as_str(),
                                ":",
                                decimal(slot).as_str(),
                                " escapes atomic group ",
                                quoted(group_id.as_str()).as_str(),
                            ).as_str(),
                        ),
                    );
                }
            },
        }
    }
    let ghost resources = residency.deep_view().resources;
    let ghost step = group_bytes_step(model, resources);
    let mut total: usize = 0;
    for index in 0..group.resource_ids.len()
        invariant
            model == dispatch.deep_view(),
            group_model == group.deep_view(),
            resources == residency.deep_view().resources,
            step == group_bytes_step(model, resources),
            expected == fold_from(group_model.resource_ids, 0, 0usize, step),
            expected == listed_group_bytes(
                model,
                residency.deep_view(),
                selector_id@,
                bindings.deep_view(),
                parameters_per_resource,
                selector_index,
                group_id@,
            ),
            fold_from(group_model.resource_ids, 0, 0usize, step) == fold_from(
                group_model.resource_ids,
                index as nat,
                total,
                step,
            ),
    {
        let resource_id = &group.resource_ids[index];
        assert(group_model.resource_ids[index as int] == resource_id@);
        match find_resource(&residency.resources, resource_id) {
            None => {
                return Err(
                    dispatch_error(
                        dispatch,
                        join2(
                            "selected atomic group references missing resource ",
                            quoted(resource_id.as_str()).as_str(),
                        ).as_str(),
                    ),
                );
            },
            Some(resource) => match &resource.source_byte_count {
                CompiledSourceByteCount::Unavailable { reason } => {
                    return Err(dispatch_error(dispatch, reason.as_str()));
                },
                CompiledSourceByteCount::Known { byte_count } => match total.checked_add(
                    *byte_count,
                ) {
                    None => {
                        return Err(
                            dispatch_error(dispatch, "selected atomic group byte count overflowed"),
                        );
                    },
                    Some(sum) => {
                        total = sum;
                    },
                },
            },
        }
    }
    Ok(total)
}

fn all_group_bytes(
    dispatch: &VulkanPreparedDispatch,
    residency: &CompiledResourceResidencyContract,
    selector_id: &String,
    bindings: &OrderedMap<(usize, usize), (String, String)>,
    parameters_per_resource: usize,
    group_ids: &Vec<String>,
) -> (outcome: Result<Vec<usize>, VulkanDistributedPlanError>)
    ensures
        plan_agrees(
            outcome,
            listed_groups_bytes_from(
                dispatch.deep_view(),
                residency.deep_view(),
                selector_id@,
                bindings.deep_view(),
                parameters_per_resource,
                group_ids.deep_view(),
                0,
                Seq::empty(),
            ),
        ),
{
    let ghost model = dispatch.deep_view();
    let ghost ids = group_ids.deep_view();
    let ghost expected = listed_groups_bytes_from(
        model,
        residency.deep_view(),
        selector_id@,
        bindings.deep_view(),
        parameters_per_resource,
        ids,
        0,
        Seq::empty(),
    );
    let mut counts: Vec<usize> = Vec::new();
    assert(counts.deep_view() =~= Seq::empty());
    for index in 0..group_ids.len()
        invariant
            model == dispatch.deep_view(),
            ids == group_ids.deep_view(),
            expected == listed_groups_bytes_from(
                model,
                residency.deep_view(),
                selector_id@,
                bindings.deep_view(),
                parameters_per_resource,
                ids,
                index as nat,
                counts.deep_view(),
            ),
            expected == listed_groups_bytes_from(
                model,
                residency.deep_view(),
                selector_id@,
                bindings.deep_view(),
                parameters_per_resource,
                ids,
                0,
                Seq::empty(),
            ),
    {
        assert(ids[index as int] == group_ids@[index as int]@);
        match group_bytes(
            dispatch,
            residency,
            selector_id,
            bindings,
            parameters_per_resource,
            index,
            &group_ids[index],
        ) {
            Err(error) => {
                return Err(error);
            },
            Ok(bytes) => {
                append(&mut counts, bytes);
            },
        }
    }
    Ok(counts)
}

fn plan_for_selector(
    dispatch: &VulkanPreparedDispatch,
    residency: &CompiledResourceResidencyContract,
    execution_scope: &String,
    partition: &SelectedResourcePartition,
    selector: &CompiledResourceSelector,
) -> (outcome: Result<VulkanDistributedSelectedResourcePartitionPlan, VulkanDistributedPlanError>)
    ensures
        plan_agrees(
            outcome,
            selector_partition(
                dispatch.deep_view(),
                residency.deep_view(),
                execution_scope@,
                partition.deep_view(),
                selector.deep_view(),
            ),
        ),
{
    let declared: usize = match narrow(partition.resource_count) {
        Some(count) => count,
        None => usize::MAX,
    };
    if selector.resource_count != declared {
        return Err(
            dispatch_error(
                dispatch,
                join8(
                    "selected resource partition ",
                    quoted(partition.selection_signal.as_str()).as_str(),
                    " declares ",
                    decimal_u64(partition.resource_count).as_str(),
                    " resources but selector ",
                    quoted(selector.id.as_str()).as_str(),
                    " declares ",
                    decimal(selector.resource_count).as_str(),
                ).as_str(),
            ),
        );
    }
    let atomic_group_ids = match &selector.mapping {
        CompiledResourceSelectorMapping::GroupTable { atomic_group_ids } => atomic_group_ids,
        _ => {
            return Err(
                dispatch_error(
                    dispatch,
                    join3(
                        "selected resource partition ",
                        quoted(partition.selection_signal.as_str()).as_str(),
                        " requires an atomic group table",
                    ).as_str(),
                ),
            );
        },
    };
    if atomic_group_ids.len() != selector.resource_count {
        return Err(
            dispatch_error(
                dispatch,
                join7(
                    "selector ",
                    quoted(selector.id.as_str()).as_str(),
                    " has ",
                    decimal(atomic_group_ids.len()).as_str(),
                    " atomic groups for ",
                    decimal(selector.resource_count).as_str(),
                    " resources",
                ).as_str(),
            ),
        );
    }
    let parameters_per_resource: usize = match narrow(partition.parameters_per_resource) {
        None => {
            return Err(dispatch_error(dispatch, "selected parameter count exceeds usize"));
        },
        Some(count) => count,
    };
    let bindings = match selected_slots(
        dispatch,
        residency,
        execution_scope,
        &partition.selection_signal,
    ) {
        Err(error) => {
            return Err(error);
        },
        Ok(bindings) => bindings,
    };
    let expected_binding_count: usize = match selector.resource_count.checked_mul(
        parameters_per_resource,
    ) {
        None => {
            return Err(dispatch_error(dispatch, "selected residency binding count overflowed"));
        },
        Some(count) => count,
    };
    if bindings.len() != expected_binding_count {
        return Err(
            dispatch_error(
                dispatch,
                join6(
                    "selected resource partition ",
                    quoted(partition.selection_signal.as_str()).as_str(),
                    " resolves ",
                    decimal(bindings.len()).as_str(),
                    " parameter slots, expected ",
                    decimal(expected_binding_count).as_str(),
                ).as_str(),
            ),
        );
    }
    let atomic_group_byte_counts = match all_group_bytes(
        dispatch,
        residency,
        &selector.id,
        &bindings,
        parameters_per_resource,
        atomic_group_ids,
    ) {
        Err(error) => {
            return Err(error);
        },
        Ok(counts) => counts,
    };
    let address_table_binding: usize = match narrow(partition.address_table_binding) {
        None => {
            return Err(dispatch_error(dispatch, "dynamic binding exceeds usize"));
        },
        Some(binding) => binding,
    };
    let parameter_slots_binding: usize = match narrow(partition.parameter_slots_binding) {
        None => {
            return Err(dispatch_error(dispatch, "dynamic binding exceeds usize"));
        },
        Some(binding) => binding,
    };
    let plan = VulkanDistributedSelectedResourcePartitionPlan {
        execution_scope: execution_scope.clone(),
        selector_id: selector.id.clone(),
        node_id: selector.node_id.clone(),
        domain_id: selector.domain_id.clone(),
        selection_signal: partition.selection_signal.clone(),
        address_table_binding,
        parameter_slots_binding,
        resource_count: selector.resource_count,
        parameters_per_resource,
        parameter_partitions: Vec::new(),
        selection_count_per_activation: selector.selection_count_per_activation,
        atomic_group_ids: atomic_group_ids.duplicate(),
        atomic_group_byte_counts,
    };
    assert(plan.deep_view().parameter_partitions =~= Seq::empty());
    Ok(plan)
}

fn plan_for_partition(
    dispatch: &VulkanPreparedDispatch,
    residency: &CompiledResourceResidencyContract,
    execution_scope: &String,
    partition: &SelectedResourcePartition,
) -> (outcome: Result<VulkanDistributedSelectedResourcePartitionPlan, VulkanDistributedPlanError>)
    ensures
        plan_agrees(
            outcome,
            resolved_partition(
                dispatch.deep_view(),
                residency.deep_view(),
                execution_scope@,
                partition.deep_view(),
            ),
        ),
{
    let ghost all = residency.deep_view().selectors;
    let ghost condition = selector_serves(
        execution_scope@,
        dispatch.component_id@,
        partition.selection_signal@,
    );
    let mut count: usize = 0;
    let mut selector_index: usize = 0;
    for index in 0..residency.selectors.len()
        invariant
            all == residency.deep_view().selectors,
            condition == selector_serves(
                execution_scope@,
                dispatch.component_id@,
                partition.selection_signal@,
            ),
            count <= index,
            count == kept(all.take(index as int), condition).len(),
            count > 0 ==> selector_index < index && all[selector_index as int] == kept(
                all.take(index as int),
                condition,
            )[0],
    {
        proof {
            lemma_kept_step(all, condition, index as int);
            assert(all[index as int] == residency.selectors@[index as int].deep_view());
        }
        let selector = &residency.selectors[index];
        if selector.execution_scope == *execution_scope && selector.component_id
            == dispatch.component_id && selector.selection_signal == partition.selection_signal {
            if count == 0 {
                selector_index = index;
            }
            count += 1;
        }
    }
    assert(all.take(all.len() as int) =~= all);
    if count != 1 {
        return Err(
            dispatch_error(
                dispatch,
                join5(
                    "selected resource partition ",
                    quoted(partition.selection_signal.as_str()).as_str(),
                    " resolves ",
                    decimal(count).as_str(),
                    " residency selectors",
                ).as_str(),
            ),
        );
    }
    assert(all[selector_index as int] == residency.selectors@[selector_index as int].deep_view());
    plan_for_selector(
        dispatch,
        residency,
        execution_scope,
        partition,
        &residency.selectors[selector_index],
    )
}

/// Resolves the resources that the contract of a dispatch selects from.
pub fn resolve_selected_resource_partitions(
    dispatch: &VulkanPreparedDispatch,
    contract: &PhysicalExecutionContract,
    resource_context: Option<(&String, &CompiledResourceResidencyContract)>,
) -> (outcome: Result<
    Vec<VulkanDistributedSelectedResourcePartitionPlan>,
    VulkanDistributedPlanError,
>)
    ensures
        plan_agrees(
            outcome,
            resolved_partitions(
                dispatch.deep_view(),
                contract.deep_view(),
                resource_context.deep_view(),
            ),
        ),
{
    let mut plans: Vec<VulkanDistributedSelectedResourcePartitionPlan> = Vec::new();
    assert(plans.deep_view() =~= Seq::empty());
    if contract.selected_resource_partitions.len() == 0 {
        return Ok(plans);
    }
    let (execution_scope, residency) = match resource_context {
        None => {
            return Err(
                dispatch_error(
                    dispatch,
                    "contains selected resources without a compiled atomic residency contract",
                ),
            );
        },
        Some(context) => context,
    };
    let ghost all = contract.deep_view().selected_resource_partitions;
    let ghost step = partition_step(dispatch.deep_view(), residency.deep_view(), execution_scope@);
    let ghost expected = resolved_partitions(
        dispatch.deep_view(),
        contract.deep_view(),
        resource_context.deep_view(),
    );
    for index in 0..contract.selected_resource_partitions.len()
        invariant
            all == contract.deep_view().selected_resource_partitions,
            step == partition_step(
                dispatch.deep_view(),
                residency.deep_view(),
                execution_scope@,
            ),
            expected == resolved_partitions(
                dispatch.deep_view(),
                contract.deep_view(),
                resource_context.deep_view(),
            ),
            expected == fold_from(all, index as nat, plans.deep_view(), step),
    {
        assert(
            all[index as int] == contract.selected_resource_partitions@[index as int].deep_view()
        );
        match plan_for_partition(
            dispatch,
            residency,
            execution_scope,
            &contract.selected_resource_partitions[index],
        ) {
            Err(error) => {
                return Err(error);
            },
            Ok(plan) => {
                append(&mut plans, plan);
            },
        }
    }
    Ok(plans)
}

} // verus!
