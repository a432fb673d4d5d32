//! Holding the bindings of a contract against the descriptors of its kernel.
use vstd::prelude::*;

use crate::arithmetic::{narrow, narrowed};
use crate::contracts::{
    PhysicalExecutionContract, PhysicalExecutionContractModel, SelectedResourcePartition,
    SelectedResourcePartitionModel,
};
use crate::errors::{plan_agrees, VulkanDistributedPlanError};
use crate::ordered::{
    keys_increase, lemma_listed_at, listed_map, lists_key, ordered_keys, ordered_listing,
    ordered_members, OrderedMap, OrderedSet,
};
use crate::planning::dispatch_error;
use crate::prepared::{
    VulkanDescriptorResourceAddress, VulkanDescriptorResourceAddressModel,
    VulkanKernelDescriptorUsage, VulkanPreparedDescriptor, VulkanPreparedDescriptorModel,
    VulkanPreparedDispatch, VulkanPreparedDispatchModel,
};
use crate::sequences::{append, fold_from};
use crate::text::{debug_text, decimal, decimal_text, join10, join3, listed, listed_text, quoted};
use crate::values::PlainValue;

verus! {

/// Adds a binding of a contract to the bindings that were found.
pub open spec fn binding_step(dispatch: VulkanPreparedDispatchModel, message: Seq<char>) -> spec_fn(
    Set<usize>,
    u64,
) -> Result<Set<usize>, Seq<char>> {
    |found: Set<usize>, binding: u64|
        match narrowed(binding) {
            Some(index) => Ok(found.insert(index)),
            None => Err(dispatch.message(message)),
        }
}

/// The bindings of a contract as indices, or the text of the error.
pub open spec fn binding_indices(
    dispatch: VulkanPreparedDispatchModel,
    bindings: Seq<u64>,
    message: Seq<char>,
) -> Result<Set<usize>, Seq<char>> {
    fold_from(bindings, 0, Set::empty(), binding_step(dispatch, message))
}

/// Adds the dynamic bindings of a partition of selected resources.
pub open spec fn dynamic_step(dispatch: VulkanPreparedDispatchModel) -> spec_fn(
    (Map<usize, SelectedResourcePartitionModel>, Map<usize, SelectedResourcePartitionModel>),
    SelectedResourcePartitionModel,
) -> Result<
    (Map<usize, SelectedResourcePartitionModel>, Map<usize, SelectedResourcePartitionModel>),
    Seq<char>,
> {
    |found: (
        Map<usize, SelectedResourcePartitionModel>,
        Map<usize, SelectedResourcePartitionModel>,
    ),
        partition: SelectedResourcePartitionModel|
        match narrowed(partition.address_table_binding) {
            None => Err(dispatch.message("dynamic address-table binding exceeds usize"@)),
            Some(address) => match narrowed(partition.parameter_slots_binding) {
                None => Err(dispatch.message("dynamic parameter-slot binding exceeds usize"@)),
                Some(slots) => Ok(
                    (found.0.insert(address, partition), found.1.insert(slots, partition)),
                ),
            },
        }
}

/// The bindings of the descriptors that satisfy a condition.
pub open spec fn described_bindings(
    descriptors: Seq<VulkanPreparedDescriptorModel>,
    condition: spec_fn(VulkanPreparedDescriptorModel) -> bool,
) -> Set<usize>
    decreases descriptors.len(),
{
    if descriptors.len() == 0 {
        Set::empty()
    } else if condition(descriptors.last()) {
        described_bindings(descriptors.drop_last(), condition).insert(descriptors.last().binding)
    } else {
        described_bindings(descriptors.drop_last(), condition)
    }
}

/// The descriptor has a usage.
pub open spec fn used_as(usage: VulkanKernelDescriptorUsage) -> spec_fn(
    VulkanPreparedDescriptorModel,
) -> bool {
    |descriptor: VulkanPreparedDescriptorModel| descriptor.usage == usage
}

/// The descriptor addresses a permanent parameter.
pub open spec fn addresses_parameter() -> spec_fn(VulkanPreparedDescriptorModel) -> bool {
    |descriptor: VulkanPreparedDescriptorModel| descriptor.resource is PermanentParameter
}

/// The address tables by binding: component, node and selection signal.
pub open spec fn address_tables(descriptors: Seq<VulkanPreparedDescriptorModel>) -> Map<
    usize,
    (Seq<char>, (Seq<char>, Seq<char>)),
>
    decreases descriptors.len(),
{
    if descriptors.len() == 0 {
        Map::empty()
    } else {
        match descriptors.last().resource {
            VulkanDescriptorResourceAddressModel::DynamicResourceAddressTable {
                component_id,
                node_id,
                selection_signal,
            } => address_tables(descriptors.drop_last()).insert(
                descriptors.last().binding,
                (component_id, (node_id, selection_signal)),
            ),
            _ => address_tables(descriptors.drop_last()),
        }
    }
}

/// The parameter slots by binding: component, node, selection signal and number
/// of parameters.
pub open spec fn parameter_slots(descriptors: Seq<VulkanPreparedDescriptorModel>) -> Map<
    usize,
    (Seq<char>, (Seq<char>, (Seq<char>, usize))),
>
    decreases descriptors.len(),
{
    if descriptors.len() == 0 {
        Map::empty()
    } else {
        match descriptors.last().resource {
            VulkanDescriptorResourceAddressModel::DynamicResourceParameterSlots {
                component_id,
                node_id,
                selection_signal,
                parameter_ids,
            } => parameter_slots(descriptors.drop_last()).insert(
                descriptors.last().binding,
                (component_id, (node_id, (selection_signal, parameter_ids.len() as usize))),
            ),
            _ => parameter_slots(descriptors.drop_last()),
        }
    }
}

/// The table at a binding serves the selection of a partition.
pub open spec fn table_serves(
    dispatch: VulkanPreparedDispatchModel,
    tables: Map<usize, (Seq<char>, (Seq<char>, Seq<char>))>,
    binding: usize,
    partition: SelectedResourcePartitionModel,
) -> bool {
    tables.contains_key(binding) && tables[binding] == (
        dispatch.component_id,
        (dispatch.node_id, partition.selection_signal),
    )
}

/// The slots at a binding serve the selection of a partition, with one slot for
/// each parameter of each resource.
pub open spec fn slots_serve(
    dispatch: VulkanPreparedDispatchModel,
    slots: Map<usize, (Seq<char>, (Seq<char>, (Seq<char>, usize)))>,
    binding: usize,
    partition: SelectedResourcePartitionModel,
) -> bool {
    slots.contains_key(binding) && slots[binding].0 == dispatch.component_id && slots[binding].1.0
        == dispatch.node_id && slots[binding].1.1.0 == partition.selection_signal
        && slots[binding].1.1.1 as int == partition.resource_count
        * partition.parameters_per_resource
}

/// The dynamic bindings of the contract are those of the kernel.
pub open spec fn dynamic_bindings_match(
    dispatch: VulkanPreparedDispatchModel,
    addresses: Map<usize, SelectedResourcePartitionModel>,
    slots: Map<usize, SelectedResourcePartitionModel>,
) -> bool {
    let tables = address_tables(dispatch.descriptors);
    let parameters = parameter_slots(dispatch.descriptors);
    &&& forall|binding: usize| #[trigger]
        addresses.contains_key(binding) ==> table_serves(
            dispatch,
            tables,
            binding,
            addresses[binding],
        )
    &&& forall|binding: usize| #[trigger]
        slots.contains_key(binding) ==> slots_serve(dispatch, parameters, binding, slots[binding])
    &&& addresses.dom().len() == tables.dom().len()
    &&& slots.dom().len() == parameters.dom().len()
}

/// The text of indices in curly brackets.
pub open spec fn set_text(indices: Set<usize>) -> Seq<char> {
    "{"@ + listed_text(
        ordered_members::<usize>(indices).map_values(|index: usize| decimal_text(index as nat)),
    ) + "}"@
}

/// The text of the keys of a map in square brackets.
pub open spec fn keys_text<X>(map: Map<usize, X>) -> Seq<char> {
    "["@ + listed_text(
        ordered_keys::<usize, X>(map).map_values(|index: usize| decimal_text(index as nat)),
    ) + "]"@
}

/// The text of one address table.
pub open spec fn table_text(entry: (usize, (Seq<char>, (Seq<char>, Seq<char>)))) -> Seq<char> {
    decimal_text(entry.0 as nat) + ": ("@ + debug_text(entry.1.0) + ", "@ + debug_text(entry.1.1.0)
        + ", "@ + debug_text(entry.1.1.1) + ")"@
}

/// The text of address tables in curly brackets.
pub open spec fn tables_text(tables: Map<usize, (Seq<char>, (Seq<char>, Seq<char>))>) -> Seq<char> {
    "{"@ + listed_text(
        ordered_listing::<usize, (Seq<char>, (Seq<char>, Seq<char>))>(tables).map_values(
            |entry: (usize, (Seq<char>, (Seq<char>, Seq<char>)))| table_text(entry),
        ),
    ) + "}"@
}

/// The text of the parameter slots of one binding.
pub open spec fn slot_text(
    entry: (usize, (Seq<char>, (Seq<char>, (Seq<char>, usize)))),
) -> Seq<char> {
    decimal_text(entry.0 as nat) + ": ("@ + debug_text(entry.1.0) + ", "@ + debug_text(entry.1.1.0)
        + ", "@ + debug_text(entry.1.1.1.0) + ", "@ + decimal_text(entry.1.1.1.1 as nat) + ")"@
}

/// The text of parameter slots in curly brackets.
pub open spec fn slots_text(
    slots: Map<usize, (Seq<char>, (Seq<char>, (Seq<char>, usize)))>,
) -> Seq<char> {
    "{"@ + listed_text(
        ordered_listing::<usize, (Seq<char>, (Seq<char>, (Seq<char>, usize)))>(slots).map_values(
            |entry: (usize, (Seq<char>, (Seq<char>, (Seq<char>, usize))))| slot_text(entry),
        ),
    ) + "}"@
}

/// The text of an error about bindings that disagree.
pub open spec fn binding_disagreement(
    dispatch: VulkanPreparedDispatchModel,
    inputs: Set<usize>,
    outputs: Set<usize>,
    parameters: Set<usize>,
    addresses: Map<usize, SelectedResourcePartitionModel>,
    slots: Map<usize, SelectedResourcePartitionModel>,
) -> Seq<char> {
    ("contract bindings inputs="@ + set_text(inputs) + " outputs="@ + set_text(outputs)
        + " parameters="@ + set_text(parameters) + " dynamic_addresses="@ + keys_text(addresses)
        + " dynamic_slots="@ + keys_text(slots)) + " disagree with artifact ABI inputs="@
        + set_text(
        described_bindings(dispatch.descriptors, used_as(VulkanKernelDescriptorUsage::InputSignal)),
    ) + " outputs="@ + set_text(
        described_bindings(
            dispatch.descriptors,
            used_as(VulkanKernelDescriptorUsage::OutputSignal),
        ),
    ) + " parameters="@ + set_text(described_bindings(dispatch.descriptors, addresses_parameter()))
        + (" dynamic_addresses="@ + tables_text(address_tables(dispatch.descriptors))
        + " dynamic_slots="@ + slots_text(parameter_slots(dispatch.descriptors)))
}

/// The bindings of the inputs of a contract.
pub open spec fn input_bindings(contract: PhysicalExecutionContractModel) -> Seq<u64> {
    Seq::new(contract.inputs.len(), |i: int| contract.inputs[i].binding)
}

/// The bindings of the outputs of a contract.
pub open spec fn output_bindings(contract: PhysicalExecutionContractModel) -> Seq<u64> {
    Seq::new(contract.outputs.len(), |i: int| contract.outputs[i].binding)
}

/// The bindings of the parameters of a contract.
pub open spec fn parameter_bindings(contract: PhysicalExecutionContractModel) -> Seq<u64> {
    Seq::new(contract.parameter_partitions.len(), |i: int| contract.parameter_partitions[i].binding)
}

/// What is wrong between the bindings of a contract and the descriptors of its
/// dispatch.
pub open spec fn coverage_fault(
    dispatch: VulkanPreparedDispatchModel,
    contract: PhysicalExecutionContractModel,
) -> Option<Seq<char>> {
    match binding_indices(dispatch, input_bindings(contract), "input binding exceeds usize"@) {
        Err(message) => Some(message),
        Ok(inputs) => match binding_indices(
            dispatch,
            output_bindings(contract),
            "output binding exceeds usize"@,
        ) {
            Err(message) => Some(message),
            Ok(outputs) => match binding_indices(
                dispatch,
                parameter_bindings(contract),
                "parameter binding exceeds usize"@,
            ) {
                Err(message) => Some(message),
                Ok(parameters) => match fold_from(
                    contract.selected_resource_partitions,
                    0,
                    (Map::empty(), Map::empty()),
                    dynamic_step(dispatch),
                ) {
                    Err(message) => Some(message),
                    Ok((addresses, slots)) => if inputs == described_bindings(
                        dispatch.descriptors,
                        used_as(VulkanKernelDescriptorUsage::InputSignal),
                    ) && outputs == described_bindings(
                        dispatch.descriptors,
                        used_as(VulkanKernelDescriptorUsage::OutputSignal),
                    ) && parameters == described_bindings(
                        dispatch.descriptors,
                        addresses_parameter(),
                    ) && dynamic_bindings_match(dispatch, addresses, slots) {
                        None
                    } else {
                        Some(
                            dispatch.message(
                                binding_disagreement(
                                    dispatch,
                                    inputs,
                                    outputs,
                                    parameters,
                                    addresses,
                                    slots,
                                ),
                            ),
                        )
                    },
                },
            },
        },
    }
}

fn indices_of(dispatch: &VulkanPreparedDispatch, bindings: &Vec<u64>, message: &str) -> (outcome:
    Result<OrderedSet<usize>, VulkanDistributedPlanError>)
    ensures
        plan_agrees(outcome, binding_indices(dispatch.deep_view(), bindings@, message@)),
{
    let ghost step = binding_step(dispatch.deep_view(), message@);
    let mut found: OrderedSet<usize> = OrderedSet::new();
    for index in 0..bindings.len()
        invariant
            step == binding_step(dispatch.deep_view(), message@),
            fold_from(bindings@, 0, Set::empty(), step) == fold_from(
                bindings@,
                index as nat,
                found.deep_view(),
                step,
            ),
    {
        match narrow(bindings[index]) {
            Some(binding) => {
                found.insert(binding);
            },
            None => {
                return Err(dispatch_error(dispatch, message));
            },
        }
    }
    Ok(found)
}

fn bindings_of(
    descriptors: &Vec<VulkanPreparedDescriptor>,
    usage: VulkanKernelDescriptorUsage,
) -> (found: OrderedSet<usize>)
    ensures
        found.deep_view() == described_bindings(descriptors.deep_view(), used_as(usage)),
{
    let ghost all = descriptors.deep_view();
    let ghost condition = used_as(usage);
    let mut found: OrderedSet<usize> = OrderedSet::new();
    for index in 0..descriptors.len()
        invariant
            all == descriptors.deep_view(),
            condition == used_as(usage),
            found.deep_view() == described_bindings(all.take(index as int), condition),
    {
        assert(all.take(index as int + 1).drop_last() =~= all.take(index as int));
        assert(all[index as int] == descriptors@[index as int].deep_view());
        if descriptors[index].usage == usage {
            found.insert(descriptors[index].binding);
        }
    }
    assert(all.take(all.len() as int) =~= all);
    found
}

fn parameter_bindings_of(descriptors: &Vec<VulkanPreparedDescriptor>) -> (found: OrderedSet<usize>)
    ensures
        found.deep_view() == described_bindings(descriptors.deep_view(), addresses_parameter()),
{
    let ghost all = descriptors.deep_view();
    let ghost condition = addresses_parameter();
    let mut found: OrderedSet<usize> = OrderedSet::new();
    for index in 0..descriptors.len()
        invariant
            all == descriptors.deep_view(),
            condition == addresses_parameter(),
            found.deep_view() == described_bindings(all.take(index as int), condition),
    {
        assert(all.take(index as int + 1).drop_last() =~= all.take(index as int));
        assert(all[index as int] == descriptors@[index as int].deep_view());
        match &descriptors[index].resource {
            VulkanDescriptorResourceAddress::PermanentParameter { tensor: _ } => {
                found.insert(descriptors[index].binding);
            },
            _ => {},
        }
    }
    assert(all.take(all.len() as int) =~= all);
    found
}

fn tables_of(descriptors: &Vec<VulkanPreparedDescriptor>) -> (found: OrderedMap<
    usize,
    (String, (String, String)),
>)
    ensures
        found.deep_view() == address_tables(descriptors.deep_view()),
{
    let ghost all = descriptors.deep_view();
    let mut found: OrderedMap<usize, (String, (String, String))> = OrderedMap::new();
    for index in 0..descriptors.len()
        invariant
            all == descriptors.deep_view(),
            found.deep_view() == address_tables(all.take(index as int)),
    {
        assert(all.take(index as int + 1).drop_last() =~= all.take(index as int));
        assert(all[index as int] == descriptors@[index as int].deep_view());
        match &descriptors[index].resource {
            VulkanDescriptorResourceAddress::DynamicResourceAddressTable {
                component_id,
                node_id,
                selection_signal,
            } => {
                found.insert(
                    descriptors[index].binding,
                    (component_id.clone(), (node_id.clone(), selection_signal.clone())),
                );
            },
            _ => {},
        }
    }
    assert(all.take(all.len() as int) =~= all);
    found
}

fn slots_of(descriptors: &Vec<VulkanPreparedDescriptor>) -> (found: OrderedMap<
    usize,
    (String, (String, (String, usize))),
>)
    ensures
        found.deep_view() == parameter_slots(descriptors.deep_view()),
{
    let ghost all = descriptors.deep_view();
    let mut found: OrderedMap<usize, (String, (String, (String, usize)))> = OrderedMap::new();
    for index in 0..descriptors.len()
        invariant
            all == descriptors.deep_view(),
            found.deep_view() == parameter_slots(all.take(index as int)),
    {
        assert(all.take(index as int + 1).drop_last() =~= all.take(index as int));
        assert(all[index as int] == descriptors@[index as int].deep_view());
        match &descriptors[index].resource {
            VulkanDescriptorResourceAddress::DynamicResourceParameterSlots {
                component_id,
                node_id,
                selection_signal,
                parameter_ids,
            } => {
                found.insert(
                    descriptors[index].binding,
                    (
                        component_id.clone(),
                        (node_id.clone(), (selection_signal.clone(), parameter_ids.len())),
                    ),
                );
            },
            _ => {},
        }
    }
    assert(all.take(all.len() as int) =~= all);
    found
}

fn written_set(indices: &OrderedSet<usize>) -> (text: String)
    ensures
        text@ == set_text(indices.deep_view()),
{
    let ghost wanted = indices.listing().map_values(|index: usize| decimal_text(index as nat));
    let count: usize = indices.len();
    let mut texts: Vec<String> = Vec::new();
    for index in 0..count
        invariant
            count == indices.listing().len(),
            wanted.len() == count,
            forall|i: int|
                0 <= i < count ==> #[trigger] wanted[i] == decimal_text(
                    indices.listing()[i] as nat,
                ),
            texts.deep_view() == wanted.take(index as int),
    {
        append(&mut texts, decimal(*indices.member_at(index)));
        assert(wanted.take(index as int + 1) =~= wanted.take(index as int).push(
            wanted[index as int],
        ));
    }
    assert(wanted.take(wanted.len() as int) =~= wanted);
    join3("{", listed(&texts).as_str(), "}")
}

fn written_keys<V: PlainValue>(map: &OrderedMap<usize, V>) -> (text: String)
    ensures
        text@ == keys_text(map.deep_view()),
{
    let keys = map.to_keys();
    let ghost all = keys.deep_view();
    let ghost wanted = all.map_values(|index: usize| decimal_text(index as nat));
    let mut texts: Vec<String> = Vec::new();
    for index in 0..keys.len()
        invariant
            all == keys.deep_view(),
            wanted.len() == keys.len(),
            forall|i: int|
                0 <= i < wanted.len() ==> #[trigger] wanted[i] == decimal_text(all[i] as nat),
            texts.deep_view() == wanted.take(index as int),
    {
        assert(all[index as int] == keys@[index as int]);
        append(&mut texts, decimal(keys[index]));
        assert(wanted.take(index as int + 1) =~= wanted.take(index as int).push(
            wanted[index as int],
        ));
    }
    assert(wanted.take(wanted.len() as int) =~= wanted);
    join3("[", listed(&texts).as_str(), "]")
}

fn written_tables(tables: &OrderedMap<usize, (String, (String, String))>) -> (text: String)
    ensures
        text@ == tables_text(tables.deep_view()),
{
    let ghost wanted = tables.listing().map_values(
        |entry: (usize, (Seq<char>, (Seq<char>, Seq<char>)))| table_text(entry),
    );
    let count: usize = tables.len();
    let mut texts: Vec<String> = Vec::new();
    for index in 0..count
        invariant
            count == tables.listing().len(),
            wanted.len() == count,
            forall|i: int|
                0 <= i < count ==> #[trigger] wanted[i] == table_text(tables.listing()[i]),
            texts.deep_view() == wanted.take(index as int),
    {
        let value = tables.value_at(index);
        append(
            &mut texts,
            crate::text::join8(
                decimal(*tables.key_at(index)).as_str(),
                ": (",
                quoted(value.0.as_str()).as_str(),
                ", ",
                quoted(value.1.0.as_str()).as_str(),
                ", ",
                quoted(value.1.1.as_str()).as_str(),
                ")",
            ),
        );
        assert(wanted.take(index as int + 1) =~= wanted.take(index as int).push(
            wanted[index as int],
        ));
    }
    assert(wanted.take(wanted.len() as int) =~= wanted);
    join3("{", listed(&texts).as_str(), "}")
}

fn written_slots(slots: &OrderedMap<usize, (String, (String, (String, usize)))>) -> (text: String)
    ensures
        text@ == slots_text(slots.deep_view()),
{
    let ghost wanted = slots.listing().map_values(
        |entry: (usize, (Seq<char>, (Seq<char>, (Seq<char>, usize))))| slot_text(entry),
    );
    let count: usize = slots.len();
    let mut texts: Vec<String> = Vec::new();
    for index in 0..count
        invariant
            count == slots.listing().len(),
            wanted.len() == count,
            forall|i: int|
                0 <= i < count ==> #[trigger] wanted[i] == slot_text(slots.listing()[i]),
            texts.deep_view() == wanted.take(index as int),
    {
        let value = slots.value_at(index);
        append(
            &mut texts,
            join10(
                decimal(*slots.key_at(index)).as_str(),
                ": (",
                quoted(value.0.as_str()).as_str(),
                ", ",
                quoted(value.1.0.as_str()).as_str(),
                ", ",
                quoted(value.1.1.0.as_str()).as_str(),
                ", ",
                decimal(value.1.1.1).as_str(),
                ")",
            ),
        );
        assert(wanted.take(index as int + 1) =~= wanted.take(index as int).push(
            wanted[index as int],
        ));
    }
    assert(wanted.take(wanted.len() as int) =~= wanted);
    join3("{", listed(&texts).as_str(), "}")
}

fn tables_serve(
    dispatch: &VulkanPreparedDispatch,
    addresses: &OrderedMap<usize, SelectedResourcePartition>,
    tables: &OrderedMap<usize, (String, (String, String))>,
) -> (result: bool)
    ensures
        result == (forall|binding: usize| #[trigger]
            addresses.deep_view().contains_key(binding) ==> table_serves(
                dispatch.deep_view(),
                tables.deep_view(),
                binding,
                addresses.deep_view()[binding],
            )),
{
    let count: usize = addresses.len();
    let ghost listing = addresses.listing();
    let ghost model = dispatch.deep_view();
    for index in 0..count
        invariant
            count == listing.len(),
            listing == addresses.listing(),
            keys_increase::<usize, SelectedResourcePartitionModel>(listing),
            listed_map(listing) == addresses.deep_view(),
            model == dispatch.deep_view(),
            forall|i: int|
                0 <= i < index ==> table_serves(
                    model,
                    tables.deep_view(),
                    (#[trigger] listing[i]).0,
                    listing[i].1,
                ),
    {
        let served: bool = match tables.get(addresses.key_at(index)) {
            None => false,
            Some(table) => table.0 == dispatch.component_id && table.1.0 == dispatch.node_id
                && table.1.1 == addresses.value_at(index).selection_signal,
        };
        if !served {
            proof {
                lemma_listed_at::<usize, SelectedResourcePartitionModel>(listing, index as int);
            }
            return false;
        }
    }
    proof {
        assert forall|binding: usize| #[trigger]
            addresses.deep_view().contains_key(binding) implies table_serves(
            model,
            tables.deep_view(),
            binding,
            addresses.deep_view()[binding],
        ) by {
            assert(lists_key(listing, binding));
            let i = choose|i: int| 0 <= i < listing.len() && #[trigger] listing[i].0 == binding;
            lemma_listed_at::<usize, SelectedResourcePartitionModel>(listing, i);
        }
    }
    true
}

fn slots_all_serve(
    dispatch: &VulkanPreparedDispatch,
    slots: &OrderedMap<usize, SelectedResourcePartition>,
    parameters: &OrderedMap<usize, (String, (String, (String, usize)))>,
) -> (result: bool)
    ensures
        result == (forall|binding: usize| #[trigger]
            slots.deep_view().contains_key(binding) ==> slots_serve(
                dispatch.deep_view(),
                parameters.deep_view(),
                binding,
                slots.deep_view()[binding],
            )),
{
    let count: usize = slots.len();
    let ghost listing = slots.listing();
    let ghost model = dispatch.deep_view();
    for index in 0..count
        invariant
            count == listing.len(),
            listing == slots.listing(),
            keys_increase::<usize, SelectedResourcePartitionModel>(listing),
            listed_map(listing) == slots.deep_view(),
            model == dispatch.deep_view(),
            forall|i: int|
                0 <= i < index ==> slots_serve(
                    model,
                    parameters.deep_view(),
                    (#[trigger] listing[i]).0,
                    listing[i].1,
                ),
    {
        let partition = slots.value_at(index);
        let served: bool = match parameters.get(slots.key_at(index)) {
            None => false,
            Some(slot) => slot.0 == dispatch.component_id && slot.1.0 == dispatch.node_id
                && slot.1.1.0 == partition.selection_signal
                && match partition.resource_count.checked_mul(partition.parameters_per_resource) {
                None => false,
                Some(expected) => match narrow(expected) {
                    None => false,
                    Some(expected) => slot.1.1.1 == expected,
                },
            },
        };
        if !served {
            proof {
                lemma_listed_at::<usize, SelectedResourcePartitionModel>(listing, index as int);
            }
            return false;
        }
    }
    proof {
        assert forall|binding: usize| #[trigger]
            slots.deep_view().contains_key(binding) implies slots_serve(
            model,
            parameters.deep_view(),
            binding,
            slots.deep_view()[binding],
        ) by {
            assert(lists_key(listing, binding));
            let i = choose|i: int| 0 <= i < listing.len() && #[trigger] listing[i].0 == binding;
            lemma_listed_at::<usize, SelectedResourcePartitionModel>(listing, i);
        }
    }
    true
}

fn dynamic_bindings(
    dispatch: &VulkanPreparedDispatch,
    contract: &PhysicalExecutionContract,
) -> (outcome: Result<
    (OrderedMap<usize, SelectedResourcePartition>, OrderedMap<usize, SelectedResourcePartition>),
    VulkanDistributedPlanError,
>)
    ensures
        plan_agrees(
            outcome,
            fold_from(
                contract.deep_view().selected_resource_partitions,
                0,
                (Map::empty(), Map::empty()),
                dynamic_step(dispatch.deep_view()),
            ),
        ),
{
    let ghost partitions = contract.deep_view().selected_resource_partitions;
    let ghost step = dynamic_step(dispatch.deep_view());
    let mut addresses: OrderedMap<usize, SelectedResourcePartition> = OrderedMap::new();
    let mut slots: OrderedMap<usize, SelectedResourcePartition> = OrderedMap::new();
    for index in 0..contract.selected_resource_partitions.len()
        invariant
            partitions == contract.deep_view().selected_resource_partitions,
            step == dynamic_step(dispatch.deep_view()),
            fold_from(partitions, 0, (Map::empty(), Map::empty()), step) == fold_from(
                partitions,
                index as nat,
                (addresses.deep_view(), slots.deep_view()),
                step,
            ),
    {
        let partition = &contract.selected_resource_partitions[index];
        assert(partitions[index as int] == partition.deep_view());
        match narrow(partition.address_table_binding) {
            None => {
                return Err(dispatch_error(dispatch, "dynamic address-table binding exceeds usize"));
            },
            Some(address_binding) => match narrow(partition.parameter_slots_binding) {
                None => {
                    return Err(
                        dispatch_error(dispatch, "dynamic parameter-slot binding exceeds usize"),
                    );
                },
                Some(slots_binding) => {
                    addresses.insert(address_binding, partition.duplicate());
                    slots.insert(slots_binding, partition.duplicate());
                },
            },
        }
    }
    Ok((addresses, slots))
}

/// Checks that a contract binds what the kernel of its dispatch declares.
pub fn validate_contract_descriptor_coverage(
    dispatch: &VulkanPreparedDispatch,
    contract: &PhysicalExecutionContract,
) -> (outcome: Result<(), VulkanDistributedPlanError>)
    ensures
        match outcome {
            Ok(_) => coverage_fault(dispatch.deep_view(), contract.deep_view()) is None,
            Err(error) => coverage_fault(dispatch.deep_view(), contract.deep_view()) == Some(
                error.0@,
            ),
        },
{
    let ghost model = dispatch.deep_view();
    let ghost contract_model = contract.deep_view();
    let mut inputs: Vec<u64> = Vec::new();
    for index in 0..contract.inputs.len()
        invariant
            inputs.len() == index,
            forall|i: int| 0 <= i < index ==> #[trigger] inputs@[i] == contract.inputs@[i].binding,
    {
        inputs.push(contract.inputs[index].binding);
    }
    assert(inputs@ =~= input_bindings(contract_model));
    let contract_inputs = match indices_of(dispatch, &inputs, "input binding exceeds usize") {
        Err(error) => {
            return Err(error);
        },
        Ok(found) => found,
    };
    let mut outputs: Vec<u64> = Vec::new();
    for index in 0..contract.outputs.len()
        invariant
            outputs.len() == index,
            forall|i: int|
                0 <= i < index ==> #[trigger] outputs@[i] == contract.outputs@[i].binding,
    {
        outputs.push(contract.outputs[index].binding);
    }
    assert(outputs@ =~= output_bindings(contract_model));
    let contract_outputs = match indices_of(dispatch, &outputs, "output binding exceeds usize") {
        Err(error) => {
            return Err(error);
        },
        Ok(found) => found,
    };
    let mut parameters: Vec<u64> = Vec::new();
    for index in 0..contract.parameter_partitions.len()
        invariant
            parameters.len() == index,
            forall|i: int|
                0 <= i < index ==> #[trigger] parameters@[i]
                    == contract.parameter_partitions@[i].binding,
    {
        parameters.push(contract.parameter_partitions[index].binding);
    }
    assert(parameters@ =~= parameter_bindings(contract_model));
    let contract_parameters = match indices_of(
        dispatch,
        &parameters,
        "parameter binding exceeds usize",
    ) {
        Err(error) => {
            return Err(error);
        },
        Ok(found) => found,
    };
    let (contract_addresses, contract_slots) = match dynamic_bindings(dispatch, contract) {
        Err(error) => {
            return Err(error);
        },
        Ok(found) => found,
    };
    let descriptor_inputs = bindings_of(
        &dispatch.descriptors,
        VulkanKernelDescriptorUsage::InputSignal,
    );
    let descriptor_outputs = bindings_of(
        &dispatch.descriptors,
        VulkanKernelDescriptorUsage::OutputSignal,
    );
    let descriptor_parameters = parameter_bindings_of(&dispatch.descriptors);
    let descriptor_addresses = tables_of(&dispatch.descriptors);
    let descriptor_slots = slots_of(&dispatch.descriptors);
    let dynamic_resources_match: bool = tables_serve(
        dispatch,
        &contract_addresses,
        &descriptor_addresses,
    ) && slots_all_serve(dispatch, &contract_slots, &descriptor_slots) && contract_addresses.len()
        == descriptor_addresses.len() && contract_slots.len() == descriptor_slots.len();
    assert(dynamic_resources_match == dynamic_bindings_match(
        model,
        contract_addresses.deep_view(),
        contract_slots.deep_view(),
    ));
    if contract_inputs.same(&descriptor_inputs) && contract_outputs.same(&descriptor_outputs)
        && contract_parameters.same(&descriptor_parameters) && dynamic_resources_match {
        return Ok(());
    }
    let contract_side = join10(
        "contract bindings inputs=",
        written_set(&contract_inputs).as_str(),
        " outputs=",
        written_set(&contract_outputs).as_str(),
        " parameters=",
        written_set(&contract_parameters).as_str(),
        " dynamic_addresses=",
        written_keys(&contract_addresses).as_str(),
        " dynamic_slots=",
        written_keys(&contract_slots).as_str(),
    );
    let dynamic_side = crate::text::join4(
        " dynamic_addresses=",
        written_tables(&descriptor_addresses).as_str(),
        " dynamic_slots=",
        written_slots(&descriptor_slots).as_str(),
    );
    Err(
        dispatch_error(
            dispatch,
            crate::text::join8(
                contract_side.as_str(),
                " disagree with artifact ABI inputs=",
                written_set(&descriptor_inputs).as_str(),
                " outputs=",
                written_set(&descriptor_outputs).as_str(),
                " parameters=",
                written_set(&descriptor_parameters).as_str(),
                dynamic_side.as_str(),
            ).as_str(),
        ),
    )
}

} // verus!
