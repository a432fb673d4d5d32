//! Laws of contracts that cover the descriptors of their dispatch.
use vstd::prelude::*;

use crate::contract_coverage::{
    address_tables, addresses_parameter, binding_step, coverage_fault, described_bindings,
    dynamic_step, input_bindings, output_bindings, parameter_bindings, parameter_slots, used_as,
};
use crate::contracts::{PhysicalExecutionContractModel, SelectedResourcePartitionModel};
use crate::prepared::{
    VulkanDescriptorResourceAddressModel, VulkanKernelDescriptorUsage,
    VulkanPreparedDescriptorModel, VulkanPreparedDispatchModel,
};
use crate::sequences::fold_from;

verus! {

proof fn lemma_bindings(
    dispatch: VulkanPreparedDispatchModel,
    bindings: Seq<u64>,
    message: Seq<char>,
    index: nat,
    found: Set<usize>,
    binding: usize,
)
    requires
        index <= bindings.len(),
        fold_from(bindings, index, found, binding_step(dispatch, message)) is Ok,
    ensures
        fold_from(bindings, index, found, binding_step(dispatch, message))->Ok_0.contains(binding)
            <==> found.contains(binding) || exists|b: int|
            index <= b < bindings.len() && #[trigger] bindings[b] == binding,
        forall|b: int| index <= b < bindings.len() ==> #[trigger] bindings[b] <= usize::MAX,
    decreases bindings.len() - index,
{
    if index < bindings.len() {
        let next = found.insert(bindings[index as int] as usize);
        lemma_bindings(dispatch, bindings, message, index + 1, next, binding);
        if exists|b: int| index <= b < bindings.len() && #[trigger] bindings[b] == binding {
            let b = choose|b: int|
                index <= b < bindings.len() && #[trigger] bindings[b] == binding;
            if b > index {
                assert(bindings[b] == binding);
            }
        }
    }
}

proof fn lemma_described(
    descriptors: Seq<VulkanPreparedDescriptorModel>,
    condition: spec_fn(VulkanPreparedDescriptorModel) -> bool,
    binding: usize,
)
    ensures
        described_bindings(descriptors, condition).contains(binding) <==> exists|d: int|
            0 <= d < descriptors.len() && condition(#[trigger] descriptors[d])
                && descriptors[d].binding == binding,
    decreases descriptors.len(),
{
    if descriptors.len() > 0 {
        let rest = descriptors.drop_last();
        lemma_described(rest, condition, binding);
        let last = descriptors.len() - 1;
        if described_bindings(rest, condition).contains(binding) {
            let d = choose|d: int|
                0 <= d < rest.len() && condition(#[trigger] rest[d]) && rest[d].binding
                    == binding;
            assert(condition(descriptors[d]));
        }
        if condition(descriptors[last]) && descriptors[last].binding == binding {
            assert(condition(descriptors[last]));
        }
        if exists|d: int|
            0 <= d < descriptors.len() && condition(#[trigger] descriptors[d])
                && descriptors[d].binding == binding {
            let d = choose|d: int|
                0 <= d < descriptors.len() && condition(#[trigger] descriptors[d])
                    && descriptors[d].binding == binding;
            if d < last {
                assert(condition(rest[d]));
            }
        }
    }
}

/// Some input of a contract stands at a binding.
pub open spec fn has_input(contract: PhysicalExecutionContractModel, binding: usize) -> bool {
    exists|i: int|
        0 <= i < contract.inputs.len() && (#[trigger] contract.inputs[i]).binding == binding
}

/// Some output of a contract stands at a binding.
pub open spec fn has_output(contract: PhysicalExecutionContractModel, binding: usize) -> bool {
    exists|i: int|
        0 <= i < contract.outputs.len() && (#[trigger] contract.outputs[i]).binding == binding
}

/// Some parameter of a contract stands at a binding.
pub open spec fn has_parameter(contract: PhysicalExecutionContractModel, binding: usize) -> bool {
    exists|i: int|
        0 <= i < contract.parameter_partitions.len() && (
        #[trigger] contract.parameter_partitions[i]).binding == binding
}

/// Some descriptor of a dispatch stands at a binding with a usage.
pub open spec fn is_used(
    dispatch: VulkanPreparedDispatchModel,
    usage: VulkanKernelDescriptorUsage,
    binding: usize,
) -> bool {
    exists|d: int|
        0 <= d < dispatch.descriptors.len() && (#[trigger] dispatch.descriptors[d]).usage == usage
            && dispatch.descriptors[d].binding == binding
}

/// Some descriptor of a dispatch addresses a permanent parameter at a binding.
pub open spec fn is_parameter(dispatch: VulkanPreparedDispatchModel, binding: usize) -> bool {
    exists|d: int|
        0 <= d < dispatch.descriptors.len() && (
        #[trigger] dispatch.descriptors[d]).resource is PermanentParameter
            && dispatch.descriptors[d].binding == binding
}

/// A contract covers its dispatch: its inputs, outputs and parameters stand at exactly the
/// bindings at which the dispatch reads signals, writes signals and addresses permanent
/// parameters.
pub proof fn law_contracts_cover_every_descriptor(
    dispatch: VulkanPreparedDispatchModel,
    contract: PhysicalExecutionContractModel,
    binding: usize,
)
    requires
        coverage_fault(dispatch, contract) is None,
    ensures
        has_input(contract, binding) <==> is_used(
            dispatch,
            VulkanKernelDescriptorUsage::InputSignal,
            binding,
        ),
        has_output(contract, binding) <==> is_used(
            dispatch,
            VulkanKernelDescriptorUsage::OutputSignal,
            binding,
        ),
        has_parameter(contract, binding) <==> is_parameter(dispatch, binding),
{
    let inputs = input_bindings(contract);
    let outputs = output_bindings(contract);
    let parameters = parameter_bindings(contract);
    let reads = used_as(VulkanKernelDescriptorUsage::InputSignal);
    let writes = used_as(VulkanKernelDescriptorUsage::OutputSignal);
    lemma_bindings(
        dispatch,
        inputs,
        "input binding exceeds usize"@,
        0,
        Set::empty(),
        binding,
    );
    lemma_bindings(
        dispatch,
        outputs,
        "output binding exceeds usize"@,
        0,
        Set::empty(),
        binding,
    );
    lemma_bindings(
        dispatch,
        parameters,
        "parameter binding exceeds usize"@,
        0,
        Set::empty(),
        binding,
    );
    lemma_described(dispatch.descriptors, reads, binding);
    lemma_described(dispatch.descriptors, writes, binding);
    lemma_described(dispatch.descriptors, addresses_parameter(), binding);
    assert(forall|i: int|
        0 <= i < contract.inputs.len() ==> inputs[i] == (#[trigger] contract.inputs[i]).binding);
    assert(forall|i: int|
        0 <= i < contract.outputs.len() ==> outputs[i] == (
        #[trigger] contract.outputs[i]).binding);
    assert(forall|i: int|
        0 <= i < contract.parameter_partitions.len() ==> parameters[i] == (
        #[trigger] contract.parameter_partitions[i]).binding);
    assert(has_input(contract, binding) <==> exists|b: int|
        0 <= b < inputs.len() && #[trigger] inputs[b] == binding) by {
        if has_input(contract, binding) {
            let i = choose|i: int|
                0 <= i < contract.inputs.len() && (#[trigger] contract.inputs[i]).binding
                    == binding;
            assert(inputs[i] == binding);
        }
        if exists|b: int| 0 <= b < inputs.len() && #[trigger] inputs[b] == binding {
            let b = choose|b: int| 0 <= b < inputs.len() && #[trigger] inputs[b] == binding;
            assert(contract.inputs[b].binding == binding);
        }
    }
    assert(has_output(contract, binding) <==> exists|b: int|
        0 <= b < outputs.len() && #[trigger] outputs[b] == binding) by {
        if has_output(contract, binding) {
            let i = choose|i: int|
                0 <= i < contract.outputs.len() && (#[trigger] contract.outputs[i]).binding
                    == binding;
            assert(outputs[i] == binding);
        }
        if exists|b: int| 0 <= b < outputs.len() && #[trigger] outputs[b] == binding {
            let b = choose|b: int| 0 <= b < outputs.len() && #[trigger] outputs[b] == binding;
            assert(contract.outputs[b].binding == binding);
        }
    }
    assert(has_parameter(contract, binding) <==> exists|b: int|
        0 <= b < parameters.len() && #[trigger] parameters[b] == binding) by {
        if has_parameter(contract, binding) {
            let i = choose|i: int|
                0 <= i < contract.parameter_partitions.len() && (
                #[trigger] contract.parameter_partitions[i]).binding == binding;
            assert(parameters[i] == binding);
        }
        if exists|b: int| 0 <= b < parameters.len() && #[trigger] parameters[b] == binding {
            let b = choose|b: int|
                0 <= b < parameters.len() && #[trigger] parameters[b] == binding;
            assert(contract.parameter_partitions[b].binding == binding);
        }
    }
    lemma_same_uses(dispatch, reads, VulkanKernelDescriptorUsage::InputSignal, binding);
    lemma_same_uses(dispatch, writes, VulkanKernelDescriptorUsage::OutputSignal, binding);
    if is_parameter(dispatch, binding) {
        let d = choose|d: int|
            0 <= d < dispatch.descriptors.len() && (
            #[trigger] dispatch.descriptors[d]).resource is PermanentParameter
                && dispatch.descriptors[d].binding == binding;
        assert(addresses_parameter()(dispatch.descriptors[d]));
    }
}

proof fn lemma_same_uses(
    dispatch: VulkanPreparedDispatchModel,
    condition: spec_fn(VulkanPreparedDescriptorModel) -> bool,
    usage: VulkanKernelDescriptorUsage,
    binding: usize,
)
    requires
        condition == used_as(usage),
    ensures
        is_used(dispatch, usage, binding) <==> exists|d: int|
            0 <= d < dispatch.descriptors.len() && condition(#[trigger] dispatch.descriptors[d])
                && dispatch.descriptors[d].binding == binding,
{
    if is_used(dispatch, usage, binding) {
        let d = choose|d: int|
            0 <= d < dispatch.descriptors.len() && (
            #[trigger] dispatch.descriptors[d]).usage == usage && dispatch.descriptors[d].binding
                == binding;
        assert(condition(dispatch.descriptors[d]));
    }
}

proof fn lemma_dynamic(
    dispatch: VulkanPreparedDispatchModel,
    partitions: Seq<SelectedResourcePartitionModel>,
    index: nat,
    found: (
        Map<usize, SelectedResourcePartitionModel>,
        Map<usize, SelectedResourcePartitionModel>,
    ),
    place: int,
)
    requires
        index <= place < partitions.len(),
        fold_from(partitions, index, found, dynamic_step(dispatch)) is Ok,
        forall|p: int|
            place < p < partitions.len() ==> (#[trigger] partitions[p]).address_table_binding
                != partitions[place].address_table_binding
                && partitions[p].parameter_slots_binding
                != partitions[place].parameter_slots_binding,
    ensures
        ({
            let all = fold_from(partitions, index, found, dynamic_step(dispatch))->Ok_0;
            let partition = partitions[place];
            &&& partition.address_table_binding <= usize::MAX
            &&& partition.parameter_slots_binding <= usize::MAX
            &&& all.0.contains_key(partition.address_table_binding as usize)
            &&& all.0[partition.address_table_binding as usize] == partition
            &&& all.1.contains_key(partition.parameter_slots_binding as usize)
            &&& all.1[partition.parameter_slots_binding as usize] == partition
        }),
    decreases partitions.len() - index,
{
    let next = dynamic_step(dispatch)(found, partitions[index as int])->Ok_0;
    if index < place {
        lemma_dynamic(dispatch, partitions, index + 1, next, place);
    } else {
        lemma_dynamic_kept(dispatch, partitions, index + 1, next, partitions[place]);
    }
}

proof fn lemma_dynamic_kept(
    dispatch: VulkanPreparedDispatchModel,
    partitions: Seq<SelectedResourcePartitionModel>,
    index: nat,
    found: (
        Map<usize, SelectedResourcePartitionModel>,
        Map<usize, SelectedResourcePartitionModel>,
    ),
    partition: SelectedResourcePartitionModel,
)
    requires
        fold_from(partitions, index, found, dynamic_step(dispatch)) is Ok,
        forall|p: int|
            index <= p < partitions.len() ==> (#[trigger] partitions[p]).address_table_binding
                != partition.address_table_binding && partitions[p].parameter_slots_binding
                != partition.parameter_slots_binding,
        partition.address_table_binding <= usize::MAX,
        partition.parameter_slots_binding <= usize::MAX,
        found.0.contains_key(partition.address_table_binding as usize),
        found.0[partition.address_table_binding as usize] == partition,
        found.1.contains_key(partition.parameter_slots_binding as usize),
        found.1[partition.parameter_slots_binding as usize] == partition,
    ensures
        ({
            let all = fold_from(partitions, index, found, dynamic_step(dispatch))->Ok_0;
            &&& all.0.contains_key(partition.address_table_binding as usize)
            &&& all.0[partition.address_table_binding as usize] == partition
            &&& all.1.contains_key(partition.parameter_slots_binding as usize)
            &&& all.1[partition.parameter_slots_binding as usize] == partition
        }),
    decreases partitions.len() - index,
{
    if index < partitions.len() {
        let next = dynamic_step(dispatch)(found, partitions[index as int])->Ok_0;
        assert(partitions[index as int].address_table_binding != partition.address_table_binding);
        lemma_dynamic_kept(dispatch, partitions, index + 1, next, partition);
    }
}

proof fn lemma_table(descriptors: Seq<VulkanPreparedDescriptorModel>, binding: usize)
    ensures
        address_tables(descriptors).contains_key(binding) ==> exists|d: int|
            0 <= d < descriptors.len() && (#[trigger] descriptors[d]).binding == binding
                && descriptors[d].resource == (
            VulkanDescriptorResourceAddressModel::DynamicResourceAddressTable {
                component_id: address_tables(descriptors)[binding].0,
                node_id: address_tables(descriptors)[binding].1.0,
                selection_signal: address_tables(descriptors)[binding].1.1,
            }),
        parameter_slots(descriptors).contains_key(binding) ==> exists|d: int|
            0 <= d < descriptors.len() && (#[trigger] descriptors[d]).binding == binding
                && descriptors[d].resource is DynamicResourceParameterSlots
                && descriptors[d].resource->DynamicResourceParameterSlots_component_id
                == parameter_slots(descriptors)[binding].0
                && descriptors[d].resource->DynamicResourceParameterSlots_node_id
                == parameter_slots(descriptors)[binding].1.0
                && descriptors[d].resource->DynamicResourceParameterSlots_selection_signal
                == parameter_slots(descriptors)[binding].1.1.0
                && descriptors[d].resource->parameter_ids.len() as usize == parameter_slots(
                descriptors,
            )[binding].1.1.1,
    decreases descriptors.len(),
{
    if descriptors.len() > 0 {
        let rest = descriptors.drop_last();
        let last = descriptors.len() - 1;
        lemma_table(rest, binding);
        if address_tables(descriptors).contains_key(binding) {
            if descriptors[last].resource is DynamicResourceAddressTable
                && descriptors[last].binding == binding {
                assert(descriptors[last].binding == binding);
            } else {
                let d = choose|d: int|
                    0 <= d < rest.len() && (#[trigger] rest[d]).binding == binding
                        && rest[d].resource == (
                    VulkanDescriptorResourceAddressModel::DynamicResourceAddressTable {
                        component_id: address_tables(rest)[binding].0,
                        node_id: address_tables(rest)[binding].1.0,
                        selection_signal: address_tables(rest)[binding].1.1,
                    });
                assert(descriptors[d] == rest[d]);
            }
        }
        if parameter_slots(descriptors).contains_key(binding) {
            if descriptors[last].resource is DynamicResourceParameterSlots
                && descriptors[last].binding == binding {
                assert(descriptors[last].binding == binding);
            } else {
                let d = choose|d: int|
                    0 <= d < rest.len() && (#[trigger] rest[d]).binding == binding
                        && rest[d].resource is DynamicResourceParameterSlots
                        && rest[d].resource->DynamicResourceParameterSlots_component_id
                        == parameter_slots(rest)[binding].0
                        && rest[d].resource->DynamicResourceParameterSlots_node_id
                        == parameter_slots(rest)[binding].1.0
                        && rest[d].resource->DynamicResourceParameterSlots_selection_signal
                        == parameter_slots(rest)[binding].1.1.0
                        && rest[d].resource->parameter_ids.len() as usize == parameter_slots(
                        rest,
                    )[binding].1.1.1;
                assert(descriptors[d] == rest[d]);
            }
        }
    }
}

/// Some descriptor of a dispatch is the table of addresses for a signal at a binding.
pub open spec fn has_table(
    dispatch: VulkanPreparedDispatchModel,
    binding: u64,
    signal: Seq<char>,
) -> bool {
    exists|d: int|
        0 <= d < dispatch.descriptors.len() && (#[trigger] dispatch.descriptors[d]).binding
            == binding && dispatch.descriptors[d].resource == (
        VulkanDescriptorResourceAddressModel::DynamicResourceAddressTable {
            component_id: dispatch.component_id,
            node_id: dispatch.node_id,
            selection_signal: signal,
        })
}

/// Some descriptor of a dispatch has as many parameter slots for a signal at a binding.
pub open spec fn has_slots(
    dispatch: VulkanPreparedDispatchModel,
    binding: u64,
    signal: Seq<char>,
    count: int,
) -> bool {
    exists|d: int|
        0 <= d < dispatch.descriptors.len() && (#[trigger] dispatch.descriptors[d]).binding
            == binding && dispatch.descriptors[d].resource is DynamicResourceParameterSlots
            && dispatch.descriptors[d].resource->DynamicResourceParameterSlots_component_id
            == dispatch.component_id
            && dispatch.descriptors[d].resource->DynamicResourceParameterSlots_node_id
            == dispatch.node_id
            && dispatch.descriptors[d].resource->DynamicResourceParameterSlots_selection_signal
            == signal && dispatch.descriptors[d].resource->parameter_ids.len() as usize == count
}

/// Every partition of selected resources of a contract that covers its dispatch has a table
/// of addresses for its signal, and one parameter slot for each parameter of each resource.
/// No two partitions may share a binding for that.
pub proof fn law_contracts_cover_selected_resources(
    dispatch: VulkanPreparedDispatchModel,
    contract: PhysicalExecutionContractModel,
    place: int,
)
    requires
        coverage_fault(dispatch, contract) is None,
        0 <= place < contract.selected_resource_partitions.len(),
        forall|p: int|
            place < p < contract.selected_resource_partitions.len() ==> (
            #[trigger] contract.selected_resource_partitions[p]).address_table_binding
                != contract.selected_resource_partitions[place].address_table_binding
                && contract.selected_resource_partitions[p].parameter_slots_binding
                != contract.selected_resource_partitions[place].parameter_slots_binding,
    ensures
        ({
            let partition = contract.selected_resource_partitions[place];
            &&& has_table(dispatch, partition.address_table_binding, partition.selection_signal)
            &&& has_slots(
                dispatch,
                partition.parameter_slots_binding,
                partition.selection_signal,
                partition.resource_count * partition.parameters_per_resource,
            )
        }),
{
    let partition = contract.selected_resource_partitions[place];
    lemma_dynamic(
        dispatch,
        contract.selected_resource_partitions,
        0,
        (Map::empty(), Map::empty()),
        place,
    );
    lemma_table(dispatch.descriptors, partition.address_table_binding as usize);
    lemma_table(dispatch.descriptors, partition.parameter_slots_binding as usize);
}

} // verus!
