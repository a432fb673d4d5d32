//! The steps that every distributed plan is made of.
use vstd::prelude::*;

use crate::errors::{plan_agrees, VulkanDistributedPlanError};
use crate::dispatch_shards::{
    VulkanDistributedParameterFragment, VulkanDistributedParameterFragmentModel,
};
use crate::execution_plans::{
    VulkanDistributedActivationSlot, VulkanDistributedActivationSlotModel,
    VulkanDistributedActivationStorage, VulkanDistributedActivationStorageModel,
};
use crate::ordered::OrderedSet;
use crate::prepared::{
    ComponentEdgePlacement, ComponentEdgePlacementModel, VulkanDescriptorResourceAddress,
    VulkanDescriptorResourceAddressModel, VulkanPreparedDescriptorModel, VulkanPreparedDispatch,
    VulkanPreparedDispatchModel,
};
use crate::sequences::{find_from, fold_from, kept, lemma_kept_step};
use crate::text::{debug_text, decimal, decimal_text, join2, join4, join5, join6, quoted};
use crate::values::PlainValue;

verus! {

/// The text of an error about a dispatch.
pub open spec fn dispatch_message(
    component_id: Seq<char>,
    node_id: Seq<char>,
    message: Seq<char>,
) -> Seq<char> {
    "distributed dispatch "@ + component_id + "."@ + node_id + " "@ + message
}

/// An error about a dispatch.
pub fn dispatch_error(dispatch: &VulkanPreparedDispatch, message: &str) -> (error:
    VulkanDistributedPlanError)
    ensures
        error.0@ == dispatch_message(dispatch.component_id@, dispatch.node_id@, message@),
{
    VulkanDistributedPlanError(
        join6(
            "distributed dispatch ",
            dispatch.component_id.as_str(),
            ".",
            dispatch.node_id.as_str(),
            " ",
            message,
        ),
    )
}

impl VulkanPreparedDispatchModel {
    /// The text of an error about this dispatch.
    pub open spec fn message(self, message: Seq<char>) -> Seq<char> {
        dispatch_message(self.component_id, self.node_id, message)
    }
}

/// What is wrong with the devices of a pool from an index on: a device is named
/// by no text, or by a text that stands earlier.
pub open spec fn device_pool_fault_from(device_ids: Seq<Seq<char>>, index: nat) -> Option<Seq<char>>
    decreases device_ids.len() - index,
{
    if index >= device_ids.len() {
        None
    } else if device_ids[index as int].len() == 0 || device_ids.take(index as int).contains(
        device_ids[index as int],
    ) {
        Some(
            "distributed execution device pool contains an empty or repeated device "@
                + debug_text(device_ids[index as int]),
        )
    } else {
        device_pool_fault_from(device_ids, index + 1)
    }
}

/// What is wrong with a device pool.
pub open spec fn device_pool_fault(device_ids: Seq<Seq<char>>) -> Option<Seq<char>> {
    if device_ids.len() == 0 {
        Some("distributed execution device pool must not be empty"@)
    } else {
        device_pool_fault_from(device_ids, 0)
    }
}

/// Accepts a pool of at least one device, each named once and not by the empty text.
pub fn validate_device_pool(device_ids: &[String]) -> (outcome: Result<
    (),
    VulkanDistributedPlanError,
>)
    ensures
        match outcome {
            Ok(_) => device_pool_fault(device_ids.deep_view()) is None,
            Err(error) => device_pool_fault(device_ids.deep_view()) == Some(error.0@),
        },
{
    if device_ids.len() == 0 {
        return Err(
            VulkanDistributedPlanError(
                "distributed execution device pool must not be empty".to_owned(),
            ),
        );
    }
    let ghost pool = device_ids.deep_view();
    let mut unique: OrderedSet<String> = OrderedSet::new();
    for index in 0..device_ids.len()
        invariant
            pool == device_ids.deep_view(),
            device_pool_fault_from(pool, 0) == device_pool_fault_from(pool, index as nat),
            forall|id: Seq<char>|
                #![auto]
                unique.deep_view().contains(id) <==> pool.take(index as int).contains(id),
    {
        let device_id = &device_ids[index];
        assert(pool[index as int] == device_id@);
        if device_id.as_str().is_empty() || !unique.insert(device_id.clone()) {
            return Err(
                VulkanDistributedPlanError(
                    join2(
                        "distributed execution device pool contains an empty or repeated device ",
                        quoted(device_id.as_str()).as_str(),
                    ),
                ),
            );
        }
        assert forall|id: Seq<char>|
            #![auto]
            unique.deep_view().contains(id) <==> pool.take(index as int + 1).contains(id) by {
            lemma_take_contains(pool, index as int, id);
        }
    }
    Ok(())
}

/// A longer prefix holds what the shorter one holds, and the item after it.
pub proof fn lemma_take_contains<T>(items: Seq<T>, count: int, value: T)
    requires
        0 <= count < items.len(),
    ensures
        items.take(count + 1).contains(value) <==> items.take(count).contains(value)
            || items[count] == value,
{
    if items.take(count + 1).contains(value) {
        let i = choose|i: int| 0 <= i < count + 1 && #[trigger] items.take(count + 1)[i] == value;
        if i < count {
            assert(items.take(count)[i] == value);
        }
    }
    if items.take(count).contains(value) {
        let i = choose|i: int| 0 <= i < count && #[trigger] items.take(count)[i] == value;
        assert(items.take(count + 1)[i] == value);
    }
    if items[count] == value {
        assert(items.take(count + 1)[count] == value);
    }
}

/// The bytes of an edge: the bytes of an element for each position of its shape.
pub open spec fn shaped_bytes(shape: Seq<usize>, element_bytes: nat) -> nat
    decreases shape.len(),
{
    if shape.len() == 0 {
        element_bytes
    } else {
        shaped_bytes(shape.drop_last(), element_bytes) * (shape.last() as nat)
    }
}

/// The byte capacity of an edge, or the text of the error. Products are formed
/// from the first extent on, and each of them must fit.
pub open spec fn edge_capacity(
    dispatch: VulkanPreparedDispatchModel,
    edge: ComponentEdgePlacementModel,
    element_bytes: usize,
) -> Result<usize, Seq<char>> {
    if element_bytes == 0 || edge.shape.len() == 0 {
        Err(dispatch.message("distributed boundary edge has no typed activation extent"@))
    } else {
        fold_from(edge.shape, 0, element_bytes, capacity_step(dispatch))
    }
}

/// Multiplies a capacity by one more extent.
pub open spec fn capacity_step(dispatch: VulkanPreparedDispatchModel) -> spec_fn(
    usize,
    usize,
) -> Result<usize, Seq<char>> {
    |bytes: usize, extent: usize|
        if bytes * extent <= usize::MAX {
            Ok((bytes * extent) as usize)
        } else {
            Err(dispatch.message("distributed boundary edge byte capacity overflowed"@))
        }
}

pub fn distributed_boundary_edge_byte_capacity(
    dispatch: &VulkanPreparedDispatch,
    edge: &ComponentEdgePlacement,
    activation_element_bytes: usize,
) -> (outcome: Result<usize, VulkanDistributedPlanError>)
    ensures
        plan_agrees(
            outcome,
            edge_capacity(dispatch.deep_view(), edge.deep_view(), activation_element_bytes),
        ),
{
    if activation_element_bytes == 0 || edge.shape.len() == 0 {
        return Err(
            dispatch_error(dispatch, "distributed boundary edge has no typed activation extent"),
        );
    }
    let ghost step = capacity_step(dispatch.deep_view());
    let ghost shape = edge.shape.deep_view();
    let mut bytes: usize = activation_element_bytes;
    for index in 0..edge.shape.len()
        invariant
            shape == edge.shape.deep_view(),
            step == capacity_step(dispatch.deep_view()),
            activation_element_bytes != 0,
            fold_from(shape, 0, activation_element_bytes, step) == fold_from(
                shape,
                index as nat,
                bytes,
                step,
            ),
    {
        assert(shape[index as int] == edge.shape@[index as int]);
        match bytes.checked_mul(edge.shape[index]) {
            Some(product) => {
                bytes = product;
            },
            None => {
                return Err(
                    dispatch_error(dispatch, "distributed boundary edge byte capacity overflowed"),
                );
            },
        }
    }
    Ok(bytes)
}

/// The capacity that [`edge_capacity`] finds is the number of elements of the
/// edge's shape times the bytes of an element.
pub proof fn law_edge_capacity_is_the_product_of_the_shape(
    dispatch: VulkanPreparedDispatchModel,
    edge: ComponentEdgePlacementModel,
    element_bytes: usize,
)
    ensures
        edge_capacity(dispatch, edge, element_bytes) is Ok ==> edge_capacity(
            dispatch,
            edge,
            element_bytes,
        )->Ok_0 == shaped_bytes(edge.shape, element_bytes as nat),
{
    if element_bytes != 0 && edge.shape.len() != 0 {
        assert(shaped_bytes(edge.shape.take(0), element_bytes as nat) == element_bytes);
        lemma_shaped_fold(dispatch, edge.shape, 0, element_bytes, element_bytes as nat);
    }
}

proof fn lemma_shaped_fold(
    dispatch: VulkanPreparedDispatchModel,
    shape: Seq<usize>,
    index: nat,
    bytes: usize,
    element_bytes: nat,
)
    requires
        index <= shape.len(),
        bytes == shaped_bytes(shape.take(index as int), element_bytes),
    ensures
        fold_from(shape, index, bytes, capacity_step(dispatch)) is Ok ==> fold_from(
            shape,
            index,
            bytes,
            capacity_step(dispatch),
        )->Ok_0 == shaped_bytes(shape, element_bytes),
    decreases shape.len() - index,
{
    if index == shape.len() {
        assert(shape.take(index as int) =~= shape);
    } else {
        assert(shape.take(index as int + 1).drop_last() =~= shape.take(index as int));
        let product = bytes * shape[index as int];
        if product <= usize::MAX {
            lemma_shaped_fold(dispatch, shape, index + 1, product as usize, element_bytes);
        }
    }
}

/// The edge carries the signal into the component.
pub open spec fn edge_arrives(
    component_id: Seq<char>,
    signal_id: Seq<char>,
) -> spec_fn(ComponentEdgePlacementModel) -> bool {
    |edge: ComponentEdgePlacementModel|
        edge.destination_component_id == component_id && (edge.destination_port_id == signal_id
            || edge.destination_component_port == Some(signal_id))
}

/// The edge carries the signal out of the component.
pub open spec fn edge_leaves(component_id: Seq<char>, signal_id: Seq<char>) -> spec_fn(
    ComponentEdgePlacementModel,
) -> bool {
    |edge: ComponentEdgePlacementModel|
        edge.source_component_id == component_id && (edge.source_port_id == signal_id
            || edge.source_component_port == Some(signal_id))
}

/// The activation of a boundary signal: the edge that carries it, or, where none
/// does, the boundary of the model itself.
pub open spec fn boundary_activation(
    dispatch: VulkanPreparedDispatchModel,
    binding: usize,
    required: usize,
    role: Seq<char>,
    signal_id: Seq<char>,
    matching: Seq<ComponentEdgePlacementModel>,
    model_boundary: VulkanDistributedActivationStorageModel,
    element_bytes: usize,
) -> Result<VulkanDistributedActivationSlotModel, Seq<char>> {
    if matching.len() == 0 {
        Ok(
            VulkanDistributedActivationSlotModel {
                binding,
                component_id: dispatch.component_id,
                signal_id,
                slot: binding,
                byte_capacity: required,
                signal_byte_capacity: required,
                storage: model_boundary,
            },
        )
    } else if matching.len() > 1 {
        Err(
            dispatch.message(
                role + " boundary signal "@ + debug_text(signal_id) + " maps to "@ + decimal_text(
                    matching.len(),
                ) + " runtime edges"@,
            ),
        )
    } else {
        match edge_capacity(dispatch, matching[0], element_bytes) {
            Err(message) => Err(message),
            Ok(byte_capacity) => Ok(
                VulkanDistributedActivationSlotModel {
                    binding,
                    component_id: dispatch.component_id,
                    signal_id,
                    slot: matching[0].edge_index,
                    byte_capacity,
                    signal_byte_capacity: byte_capacity,
                    storage: VulkanDistributedActivationStorageModel::Edge {
                        edge_index: matching[0].edge_index,
                        owner_device_id: matching[0].source_device_id,
                    },
                },
            ),
        }
    }
}

/// The activation that a descriptor stands for, before its capacity is checked.
pub open spec fn described_activation(
    dispatch: VulkanPreparedDispatchModel,
    descriptor: VulkanPreparedDescriptorModel,
    binding: usize,
    required: usize,
    role: Seq<char>,
    edges: Seq<ComponentEdgePlacementModel>,
    element_bytes: usize,
) -> Result<VulkanDistributedActivationSlotModel, Seq<char>> {
    match descriptor.resource {
        VulkanDescriptorResourceAddressModel::ActivationSlot {
            component_id,
            signal_id,
            slot,
            byte_capacity,
            signal_byte_capacity,
        } => Ok(
            VulkanDistributedActivationSlotModel {
                binding,
                component_id,
                signal_id,
                slot,
                byte_capacity,
                signal_byte_capacity,
                storage: VulkanDistributedActivationStorageModel::ActivationSlot,
            },
        ),
        VulkanDescriptorResourceAddressModel::BoundaryInput { signal_id } => boundary_activation(
            dispatch,
            binding,
            required,
            role,
            signal_id,
            kept(edges, edge_arrives(dispatch.component_id, signal_id)),
            VulkanDistributedActivationStorageModel::BoundaryInput,
            element_bytes,
        ),
        VulkanDescriptorResourceAddressModel::BoundaryOutput { signal_id } => boundary_activation(
            dispatch,
            binding,
            required,
            role,
            signal_id,
            kept(edges, edge_leaves(dispatch.component_id, signal_id)),
            VulkanDistributedActivationStorageModel::BoundaryOutput,
            element_bytes,
        ),
        _ => Err(
            dispatch.message(
                role + " binding "@ + decimal_text(binding as nat) + " is not a resident signal"@,
            ),
        ),
    }
}

/// The descriptor stands at the binding.
pub open spec fn descriptor_at(binding: usize) -> spec_fn(VulkanPreparedDescriptorModel) -> bool {
    |descriptor: VulkanPreparedDescriptorModel| descriptor.binding == binding
}

/// The activation at a binding of a dispatch, or the text of the error.
pub open spec fn resolved_activation(
    dispatch: VulkanPreparedDispatchModel,
    binding: usize,
    required: usize,
    role: Seq<char>,
    edges: Seq<ComponentEdgePlacementModel>,
    element_bytes: usize,
) -> Result<VulkanDistributedActivationSlotModel, Seq<char>> {
    match find_from(dispatch.descriptors, 0, descriptor_at(binding)) {
        None => Err(
            dispatch.message(
                "has no resident "@ + role + " descriptor at binding "@ + decimal_text(
                    binding as nat,
                ),
            ),
        ),
        Some(descriptor) => match described_activation(
            dispatch,
            descriptor,
            binding,
            required,
            role,
            edges,
            element_bytes,
        ) {
            Err(message) => Err(message),
            Ok(activation) => if activation.signal_byte_capacity < required {
                Err(
                    dispatch.message(
                        role + " signal has "@ + decimal_text(
                            activation.signal_byte_capacity as nat,
                        ) + " bytes but requires "@ + decimal_text(required as nat),
                    ),
                )
            } else {
                Ok(activation)
            },
        },
    }
}

fn edge_matches_arrival(
    edge: &ComponentEdgePlacement,
    component_id: &String,
    signal_id: &String,
) -> (result: bool)
    ensures
        result == edge_arrives(component_id@, signal_id@)(edge.deep_view()),
{
    edge.destination_component_id == *component_id && (edge.destination_port_id == *signal_id
        || match &edge.destination_component_port {
        Some(port) => *port == *signal_id,
        None => false,
    })
}

fn edge_matches_departure(
    edge: &ComponentEdgePlacement,
    component_id: &String,
    signal_id: &String,
) -> (result: bool)
    ensures
        result == edge_leaves(component_id@, signal_id@)(edge.deep_view()),
{
    edge.source_component_id == *component_id && (edge.source_port_id == *signal_id
        || match &edge.source_component_port {
        Some(port) => *port == *signal_id,
        None => false,
    })
}

/// The activation of a boundary signal of a dispatch, as an input or an output.
fn boundary_slot(
    dispatch: &VulkanPreparedDispatch,
    binding: usize,
    required: usize,
    role: &str,
    signal_id: &String,
    edge_placements: &[ComponentEdgePlacement],
    is_input: bool,
    activation_element_bytes: usize,
) -> (outcome: Result<VulkanDistributedActivationSlot, VulkanDistributedPlanError>)
    ensures
        plan_agrees(
            outcome,
            boundary_activation(
                dispatch.deep_view(),
                binding,
                required,
                role@,
                signal_id@,
                kept(
                    edge_placements.deep_view(),
                    if is_input {
                        edge_arrives(dispatch.component_id@, signal_id@)
                    } else {
                        edge_leaves(dispatch.component_id@, signal_id@)
                    },
                ),
                if is_input {
                    VulkanDistributedActivationStorageModel::BoundaryInput
                } else {
                    VulkanDistributedActivationStorageModel::BoundaryOutput
                },
                activation_element_bytes,
            ),
        ),
{
    let ghost edges = edge_placements.deep_view();
    let ghost condition = if is_input {
        edge_arrives(dispatch.component_id@, signal_id@)
    } else {
        edge_leaves(dispatch.component_id@, signal_id@)
    };
    let mut count: usize = 0;
    let mut matching_index: usize = 0;
    for index in 0..edge_placements.len()
        invariant
            edges == edge_placements.deep_view(),
            condition == if is_input {
                edge_arrives(dispatch.component_id@, signal_id@)
            } else {
                edge_leaves(dispatch.component_id@, signal_id@)
            },
            count == kept(edges.take(index as int), condition).len(),
            count <= index,
            count > 0 ==> matching_index < index && edges[matching_index as int] == kept(
                edges.take(index as int),
                condition,
            )[0],
    {
        proof {
            lemma_kept_step(edges, condition, index as int);
            assert(edges[index as int] == edge_placements@[index as int].deep_view());
        }
        let matches_signal: bool = if is_input {
            edge_matches_arrival(&edge_placements[index], &dispatch.component_id, signal_id)
        } else {
            edge_matches_departure(&edge_placements[index], &dispatch.component_id, signal_id)
        };
        if matches_signal {
            if count == 0 {
                matching_index = index;
            }
            count += 1;
        }
    }
    assert(edges.take(edges.len() as int) =~= edges);
    if count == 0 {
        return Ok(
            VulkanDistributedActivationSlot {
                binding,
                component_id: dispatch.component_id.clone(),
                signal_id: signal_id.clone(),
                slot: binding,
                byte_capacity: required,
                signal_byte_capacity: required,
                storage: if is_input {
                    VulkanDistributedActivationStorage::BoundaryInput
                } else {
                    VulkanDistributedActivationStorage::BoundaryOutput
                },
            },
        );
    }
    if count > 1 {
        return Err(
            dispatch_error(
                dispatch,
                join6(
                    role,
                    " boundary signal ",
                    quoted(signal_id.as_str()).as_str(),
                    " maps to ",
                    decimal(count).as_str(),
                    " runtime edges",
                ).as_str(),
            ),
        );
    }
    let edge = &edge_placements[matching_index];
    match distributed_boundary_edge_byte_capacity(dispatch, edge, activation_element_bytes) {
        Err(error) => Err(error),
        Ok(byte_capacity) => Ok(
            VulkanDistributedActivationSlot {
                binding,
                component_id: dispatch.component_id.clone(),
                signal_id: signal_id.clone(),
                slot: edge.edge_index,
                byte_capacity,
                signal_byte_capacity: byte_capacity,
                storage: VulkanDistributedActivationStorage::Edge {
                    edge_index: edge.edge_index,
                    owner_device_id: edge.source_device_id.clone(),
                },
            },
        ),
    }
}

/// Finds the activation that a dispatch has at a binding.
pub fn distributed_activation(
    dispatch: &VulkanPreparedDispatch,
    binding: usize,
    required: usize,
    role: &str,
    edge_placements: &[ComponentEdgePlacement],
    activation_element_bytes: usize,
) -> (outcome: Result<VulkanDistributedActivationSlot, VulkanDistributedPlanError>)
    ensures
        plan_agrees(
            outcome,
            resolved_activation(
                dispatch.deep_view(),
                binding,
                required,
                role@,
                edge_placements.deep_view(),
                activation_element_bytes,
            ),
        ),
{
    let ghost model = dispatch.deep_view();
    let ghost condition = descriptor_at(binding);
    let mut position: usize = 0;
    while position < dispatch.descriptors.len() && dispatch.descriptors[position].binding != binding
        invariant
            model == dispatch.deep_view(),
            condition == descriptor_at(binding),
            position <= dispatch.descriptors.len(),
            find_from(model.descriptors, 0, condition) == find_from(
                model.descriptors,
                position as nat,
                condition,
            ),
        decreases dispatch.descriptors.len() - position,
    {
        assert(
            model.descriptors[position as int] == dispatch.descriptors@[position as int].deep_view()
        );
        position += 1;
    }
    if position == dispatch.descriptors.len() {
        return Err(
            dispatch_error(
                dispatch,
                join4(
                    "has no resident ",
                    role,
                    " descriptor at binding ",
                    decimal(binding).as_str(),
                ).as_str(),
            ),
        );
    }
    let descriptor = &dispatch.descriptors[position];
    assert(model.descriptors[position as int] == descriptor.deep_view());
    let activation = match &descriptor.resource {
        VulkanDescriptorResourceAddress::ActivationSlot {
            component_id,
            signal_id,
            slot,
            byte_capacity,
            signal_byte_capacity,
        } => VulkanDistributedActivationSlot {
            binding,
            component_id: component_id.clone(),
            signal_id: signal_id.clone(),
            slot: *slot,
            byte_capacity: *byte_capacity,
            signal_byte_capacity: *signal_byte_capacity,
            storage: VulkanDistributedActivationStorage::ActivationSlot,
        },
        VulkanDescriptorResourceAddress::BoundaryInput { signal_id } => {
            match boundary_slot(
                dispatch,
                binding,
                required,
                role,
                signal_id,
                edge_placements,
                true,
                activation_element_bytes,
            ) {
                Err(error) => {
                    return Err(error);
                },
                Ok(activation) => activation,
            }
        },
        VulkanDescriptorResourceAddress::BoundaryOutput { signal_id } => {
            match boundary_slot(
                dispatch,
                binding,
                required,
                role,
                signal_id,
                edge_placements,
                false,
                activation_element_bytes,
            ) {
                Err(error) => {
                    return Err(error);
                },
                Ok(activation) => activation,
            }
        },
        _ => {
            return Err(
                dispatch_error(
                    dispatch,
                    join4(
                        role,
                        " binding ",
                        decimal(binding).as_str(),
                        " is not a resident signal",
                    ).as_str(),
                ),
            );
        },
    };
    if activation.signal_byte_capacity < required {
        return Err(
            dispatch_error(
                dispatch,
                join5(
                    role,
                    " signal has ",
                    decimal(activation.signal_byte_capacity).as_str(),
                    " bytes but requires ",
                    decimal(required).as_str(),
                ).as_str(),
            ),
        );
    }
    Ok(activation)
}

/// The bytes of a parameter that a run of rows occupies, or the text of the error.
pub open spec fn row_fragment(
    dispatch: VulkanPreparedDispatchModel,
    binding: usize,
    tensor: Seq<char>,
    row_bytes: usize,
    row_start: usize,
    row_count: usize,
) -> Result<VulkanDistributedParameterFragmentModel, Seq<char>> {
    if row_start * row_bytes > usize::MAX {
        Err(dispatch.message("parameter shard offset overflowed"@))
    } else if row_count * row_bytes > usize::MAX {
        Err(dispatch.message("parameter shard byte count overflowed"@))
    } else {
        Ok(
            VulkanDistributedParameterFragmentModel {
                binding,
                tensor,
                byte_offset: (row_start * row_bytes) as usize,
                byte_count: (row_count * row_bytes) as usize,
            },
        )
    }
}

pub fn parameter_fragment(
    binding: usize,
    tensor: &str,
    row_bytes: usize,
    row_start: usize,
    row_count: usize,
    dispatch: &VulkanPreparedDispatch,
) -> (outcome: Result<VulkanDistributedParameterFragment, VulkanDistributedPlanError>)
    ensures
        plan_agrees(
            outcome,
            row_fragment(dispatch.deep_view(), binding, tensor@, row_bytes, row_start, row_count),
        ),
{
    match row_start.checked_mul(row_bytes) {
        None => Err(dispatch_error(dispatch, "parameter shard offset overflowed")),
        Some(byte_offset) => match row_count.checked_mul(row_bytes) {
            None => Err(dispatch_error(dispatch, "parameter shard byte count overflowed")),
            Some(byte_count) => Ok(
                VulkanDistributedParameterFragment {
                    binding,
                    tensor: tensor.to_owned(),
                    byte_offset,
                    byte_count,
                },
            ),
        },
    }
}

} // verus!
