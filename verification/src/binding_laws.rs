//! Laws of the buffers that the kernels of shards get.
use vstd::prelude::*;

use crate::activation_buffers::VulkanDistributedActivationBuffersModel;
use crate::activation_lookups::{
    activation_seen, buffer_is_handoff, buffer_is_reduction, buffer_matches, handoff_seen,
    reduction_seen,
};
use crate::dispatch_laws::{
    law_shards_tile_what_is_cut, written_capacity, DispatchTaskModel,
};
use crate::dispatch_shards::{
    VulkanDistributedDispatchShardModel, VulkanDistributedParameterFragmentModel,
};
use crate::execution_plans::{
    VulkanDistributedActivationSlotModel, VulkanDistributedActivationStorageModel,
    VulkanDistributedDispatchPlanModel, VulkanDistributedSelectedResourcePartitionPlanModel,
};
use crate::parameter_buffers::buffer_holds;
use crate::resident::{
    VulkanResidentBuffer, VulkanResidentKernelBufferAccess, VulkanResidentKernelBufferBinding,
};
use crate::runner_bindings::{
    auxiliary_bindings_from, parameter_binding_step, partition_binding_step, shard_bindings,
    shard_constants, shard_kernel, VulkanDistributedRunnerInputsModel,
};
use crate::sequences::{find_from, fold_from};

verus! {

/// The buffer is what a device sees of an activation: its view of the first buffer that was
/// allocated for the same storage. A slot is known by its owner, component and number, an
/// edge by its number and owner, and a boundary by its owner, component and signal.
pub open spec fn is_view_of(
    buffers: VulkanDistributedActivationBuffersModel,
    owner_device_id: Seq<char>,
    activation: VulkanDistributedActivationSlotModel,
    device_id: Seq<char>,
    buffer: VulkanResidentBuffer,
) -> bool {
    exists|k: int|
        0 <= k < buffers.allocations.len() && holds_activation(
            buffers,
            owner_device_id,
            activation,
            #[trigger] buffers.allocations[k].planned.owner_device_id,
            k,
        ) && buffers.allocations[k].device_buffers.contains_key(device_id)
            && buffers.allocations[k].device_buffers[device_id] == buffer
}

/// The buffer at a place was allocated for an activation.
pub open spec fn holds_activation(
    buffers: VulkanDistributedActivationBuffersModel,
    owner_device_id: Seq<char>,
    activation: VulkanDistributedActivationSlotModel,
    buffer_owner: Seq<char>,
    place: int,
) -> bool {
    let planned = buffers.allocations[place].planned;
    &&& planned.storage == activation.storage
    &&& match activation.storage {
        VulkanDistributedActivationStorageModel::Edge { owner_device_id: edge_owner, .. } =>
            buffer_owner == edge_owner,
        VulkanDistributedActivationStorageModel::ActivationSlot => buffer_owner == owner_device_id
            && planned.component_id == activation.component_id && planned.slot == activation.slot,
        _ => buffer_owner == owner_device_id && planned.component_id == activation.component_id
            && planned.signal_ids.contains(activation.signal_id),
    }
}

/// Devices see of an activation the buffer that was allocated for it.
pub proof fn law_devices_see_the_buffers_of_activations(
    buffers: VulkanDistributedActivationBuffersModel,
    owner_device_id: Seq<char>,
    activation: VulkanDistributedActivationSlotModel,
    device_id: Seq<char>,
)
    requires
        activation_seen(buffers, owner_device_id, activation, device_id) is Some,
    ensures
        is_view_of(
            buffers,
            owner_device_id,
            activation,
            device_id,
            activation_seen(buffers, owner_device_id, activation, device_id)->0,
        ),
{
    let condition = buffer_matches(owner_device_id, activation);
    let k = lemma_found_place(buffers.allocations, 0, condition);
    assert(holds_activation(
        buffers,
        owner_device_id,
        activation,
        buffers.allocations[k].planned.owner_device_id,
        k,
    ));
}

/// What is found stands at a place and satisfies the condition.
pub proof fn lemma_found_place<T>(
    items: Seq<T>,
    start: nat,
    condition: spec_fn(T) -> bool,
) -> (place: int)
    requires
        find_from(items, start, condition) is Some,
    ensures
        start <= place < items.len(),
        items[place] == find_from(items, start, condition)->0,
        condition(items[place]),
        forall|i: int| start <= i < place ==> !condition(#[trigger] items[i]),
    decreases items.len() - start,
{
    if condition(items[start as int]) {
        start as int
    } else {
        lemma_found_place(items, start + 1, condition)
    }
}

/// Devices see of the partial outputs of a dispatch, and of what one dispatch hands to
/// another, the buffers that were allocated for them.
pub proof fn law_devices_see_the_buffers_of_dispatches(
    buffers: VulkanDistributedActivationBuffersModel,
    owner_device_id: Seq<char>,
    dispatch_index: usize,
    consumer: usize,
    device_id: Seq<char>,
)
    ensures
        reduction_seen(buffers, owner_device_id, dispatch_index, device_id) is Some ==> exists|
            k: int,
        |
            0 <= k < buffers.reduction_allocations.len() && (
            #[trigger] buffers.reduction_allocations[k]).planned.owner_device_id == owner_device_id
                && buffers.reduction_allocations[k].planned.dispatch_index == dispatch_index
                && buffers.reduction_allocations[k].device_buffers.contains_key(device_id)
                && buffers.reduction_allocations[k].device_buffers[device_id] == reduction_seen(
                buffers,
                owner_device_id,
                dispatch_index,
                device_id,
            )->0,
        handoff_seen(buffers, dispatch_index, consumer, device_id) is Some ==> exists|k: int|
            0 <= k < buffers.private_intermediate_allocations.len() && (
            #[trigger] buffers.private_intermediate_allocations[k]).planned.producer_dispatch_index
                == dispatch_index
                && buffers.private_intermediate_allocations[k].planned.consumer_dispatch_index
                == consumer
                && buffers.private_intermediate_allocations[k].device_buffers.contains_key(
                device_id,
            ) && buffers.private_intermediate_allocations[k].device_buffers[device_id]
                == handoff_seen(buffers, dispatch_index, consumer, device_id)->0,
{
    if reduction_seen(buffers, owner_device_id, dispatch_index, device_id) is Some {
        let k = lemma_found_place(
            buffers.reduction_allocations,
            0,
            buffer_is_reduction(owner_device_id, dispatch_index),
        );
        assert(buffers.reduction_allocations[k].planned.owner_device_id == owner_device_id);
    }
    if handoff_seen(buffers, dispatch_index, consumer, device_id) is Some {
        let k = lemma_found_place(
            buffers.private_intermediate_allocations,
            0,
            buffer_is_handoff(dispatch_index, consumer),
        );
        assert(buffers.private_intermediate_allocations[k].planned.consumer_dispatch_index
            == consumer);
    }
}

/// The binding gives a kernel bytes of a buffer to read.
pub open spec fn reads_bytes(
    binding: VulkanResidentKernelBufferBinding,
    number: usize,
    byte_offset: usize,
    byte_count: usize,
) -> bool {
    &&& binding.binding == number
    &&& binding.byte_offset == byte_offset
    &&& binding.byte_count == byte_count
    &&& binding.access is Read
}

/// The kernel of a shard reads the primary input: what was handed to it privately from the
/// first byte on, or else its range of what the device sees of the input.
pub open spec fn reads_primary_input(
    inputs: VulkanDistributedRunnerInputsModel,
    dispatch: VulkanDistributedDispatchPlanModel,
    shard: VulkanDistributedDispatchShardModel,
    private_input: Option<VulkanResidentBuffer>,
    binding: VulkanResidentKernelBufferBinding,
) -> bool {
    let number = dispatch.input_activation.binding;
    match private_input {
        Some(buffer) => binding.buffer == buffer && reads_bytes(
            binding,
            number,
            0,
            shard.input_range.byte_count,
        ),
        None => is_view_of(
            inputs.activations,
            dispatch.owner_device_id,
            dispatch.input_activation,
            shard.device_id,
            binding.buffer,
        ) && reads_bytes(
            binding,
            number,
            shard.input_range.byte_offset,
            shard.input_range.byte_count,
        ),
    }
}

/// The kernel of a shard reads its range of an auxiliary input.
pub open spec fn reads_auxiliary_input(
    inputs: VulkanDistributedRunnerInputsModel,
    dispatch: VulkanDistributedDispatchPlanModel,
    shard: VulkanDistributedDispatchShardModel,
    place: int,
    binding: VulkanResidentKernelBufferBinding,
) -> bool {
    let auxiliary = dispatch.auxiliary_input_activations[place];
    let range = shard.auxiliary_input_ranges[place];
    is_view_of(
        inputs.activations,
        dispatch.owner_device_id,
        auxiliary,
        shard.device_id,
        binding.buffer,
    ) && reads_bytes(binding, auxiliary.binding, range.byte_offset, range.byte_count)
}

/// The kernel of a shard writes the output: its own plane of the partial outputs where these
/// are joined, what it hands on privately from the first byte on, or else its range of what
/// the device sees of the output.
pub open spec fn writes_output(
    inputs: VulkanDistributedRunnerInputsModel,
    dispatch: VulkanDistributedDispatchPlanModel,
    shard: VulkanDistributedDispatchShardModel,
    shard_index: usize,
    private_output: Option<VulkanResidentBuffer>,
    binding: VulkanResidentKernelBufferBinding,
) -> bool {
    &&& binding.binding == dispatch.output_activation.binding
    &&& binding.access is Write
    &&& match dispatch.reduction {
        Some(reduction) => {
            &&& private_output is None
            &&& reduction_seen(
                inputs.activations,
                dispatch.owner_device_id,
                dispatch.dispatch_index,
                shard.device_id,
            ) == Some(binding.buffer)
            &&& binding.byte_offset == shard_index * reduction.partial_byte_capacity
            &&& binding.byte_count == reduction.partial_byte_capacity
            &&& shard.output_byte_offset == 0
            &&& shard.output_byte_count == reduction.partial_byte_capacity
        },
        None => match private_output {
            Some(buffer) => {
                &&& binding.buffer == buffer
                &&& binding.byte_offset == 0
                &&& binding.byte_count == shard.output_byte_count
            },
            None => {
                &&& is_view_of(
                    inputs.activations,
                    dispatch.owner_device_id,
                    dispatch.output_activation,
                    shard.device_id,
                    binding.buffer,
                )
                &&& binding.byte_offset == shard.output_byte_offset
                &&& binding.byte_count == shard.output_byte_count
            },
        },
    }
}

/// The kernel of a shard reads a fragment of a parameter where the bytes of the tensor lie in
/// a buffer of its device: as far behind the start of the buffer's part as the fragment is
/// behind the start of the tensor bytes there.
pub open spec fn reads_fragment(
    inputs: VulkanDistributedRunnerInputsModel,
    device_id: Seq<char>,
    fragment: VulkanDistributedParameterFragmentModel,
    binding: VulkanResidentKernelBufferBinding,
) -> bool {
    exists|k: int|
        0 <= k < inputs.parameters.len() && is_part_of_buffer(
            inputs,
            device_id,
            fragment,
            binding,
            #[trigger] inputs.parameters[k].byte_offset,
            k,
        )
}

/// A binding gives a fragment of a tensor out of the resident buffer at a place.
pub open spec fn is_part_of_buffer(
    inputs: VulkanDistributedRunnerInputsModel,
    device_id: Seq<char>,
    fragment: VulkanDistributedParameterFragmentModel,
    binding: VulkanResidentKernelBufferBinding,
    resident_offset: usize,
    place: int,
) -> bool {
    let resident = inputs.parameters[place];
    &&& resident.allocation.device_id == device_id
    &&& resident.allocation.tensor == fragment.tensor
    &&& resident.allocation.byte_offset <= fragment.byte_offset
    &&& fragment.byte_offset + fragment.byte_count <= resident.allocation.byte_offset
        + resident.allocation.byte_count
    &&& fragment.byte_count > 0
    &&& binding.buffer == resident.buffer
    &&& binding.byte_offset - resident_offset == fragment.byte_offset
        - resident.allocation.byte_offset
    &&& binding.byte_count == fragment.byte_count
    &&& binding.binding == fragment.binding
    &&& binding.access is Read
}

/// The kernel of a shard reads the whole address table of its device and the whole slots of a
/// selector.
pub open spec fn reads_selector(
    inputs: VulkanDistributedRunnerInputsModel,
    dispatch: VulkanDistributedDispatchPlanModel,
    device_id: Seq<char>,
    partition: VulkanDistributedSelectedResourcePartitionPlanModel,
    table: VulkanResidentKernelBufferBinding,
    slots: VulkanResidentKernelBufferBinding,
) -> bool {
    let resources = inputs.dynamic_resource_buffers[device_id];
    let key = (dispatch.component_id, (dispatch.node_id, partition.selection_signal));
    &&& inputs.dynamic_resource_buffers.contains_key(device_id)
    &&& resources.parameter_slots.contains_key(key)
    &&& table.buffer == resources.address_table
    &&& reads_bytes(
        table,
        partition.address_table_binding,
        0,
        resources.address_table.byte_capacity,
    )
    &&& slots.buffer == resources.parameter_slots[key]
    &&& reads_bytes(
        slots,
        partition.parameter_slots_binding,
        0,
        resources.parameter_slots[key].byte_capacity,
    )
}

proof fn lemma_auxiliary_bound(
    inputs: VulkanDistributedRunnerInputsModel,
    dispatch: VulkanDistributedDispatchPlanModel,
    shard: VulkanDistributedDispatchShardModel,
    index: nat,
    bindings: Seq<VulkanResidentKernelBufferBinding>,
)
    requires
        index <= dispatch.auxiliary_input_activations.len(),
        auxiliary_bindings_from(inputs, dispatch, shard, index, bindings) is Ok,
    ensures
        ({
            let all = auxiliary_bindings_from(inputs, dispatch, shard, index, bindings)->Ok_0;
            &&& all.len() == bindings.len() + (dispatch.auxiliary_input_activations.len() - index)
            &&& forall|i: int| 0 <= i < bindings.len() ==> #[trigger] all[i] == bindings[i]
            &&& forall|i: int|
                bindings.len() <= i < all.len() ==> reads_auxiliary_input(
                    inputs,
                    dispatch,
                    shard,
                    i - bindings.len() + index,
                    #[trigger] all[i],
                )
        }),
    decreases dispatch.auxiliary_input_activations.len() - index,
{
    if index < dispatch.auxiliary_input_activations.len() {
        let auxiliary = dispatch.auxiliary_input_activations[index as int];
        let range = shard.auxiliary_input_ranges[index as int];
        let buffer = activation_seen(
            inputs.activations,
            dispatch.owner_device_id,
            auxiliary,
            shard.device_id,
        )->0;
        law_devices_see_the_buffers_of_activations(
            inputs.activations,
            dispatch.owner_device_id,
            auxiliary,
            shard.device_id,
        );
        let grown = bindings.push(
            crate::runner_bindings::bound(
                auxiliary.binding,
                buffer,
                range.byte_offset,
                range.byte_count,
                VulkanResidentKernelBufferAccess::Read,
            ),
        );
        lemma_auxiliary_bound(inputs, dispatch, shard, index + 1, grown);
        let all = auxiliary_bindings_from(inputs, dispatch, shard, index + 1, grown)->Ok_0;
        assert forall|i: int| 0 <= i < bindings.len() implies #[trigger] all[i] == bindings[i] by {
            assert(all[i] == grown[i]);
        }
        assert(all[bindings.len() as int] == grown[bindings.len() as int]);
    }
}

proof fn lemma_parameters_bound(
    inputs: VulkanDistributedRunnerInputsModel,
    dispatch: VulkanDistributedDispatchPlanModel,
    device_id: Seq<char>,
    parameters: Seq<VulkanDistributedParameterFragmentModel>,
    index: nat,
    bindings: Seq<VulkanResidentKernelBufferBinding>,
)
    requires
        index <= parameters.len(),
        fold_from(
            parameters,
            index,
            bindings,
            parameter_binding_step(inputs, dispatch, device_id),
        ) is Ok,
    ensures
        ({
            let all = fold_from(
                parameters,
                index,
                bindings,
                parameter_binding_step(inputs, dispatch, device_id),
            )->Ok_0;
            &&& all.len() == bindings.len() + (parameters.len() - index)
            &&& forall|i: int| 0 <= i < bindings.len() ==> #[trigger] all[i] == bindings[i]
            &&& forall|i: int|
                bindings.len() <= i < all.len() ==> reads_fragment(
                    inputs,
                    device_id,
                    parameters[i - bindings.len() + index],
                    #[trigger] all[i],
                )
        }),
    decreases parameters.len() - index,
{
    let step = parameter_binding_step(inputs, dispatch, device_id);
    if index < parameters.len() {
        let fragment = parameters[index as int];
        let grown = step(bindings, fragment)->Ok_0;
        let condition = buffer_holds(
            device_id,
            fragment.tensor,
            fragment.byte_offset,
            fragment.byte_count,
        );
        let k = lemma_found_place(inputs.parameters, 0, condition);
        let binding = grown.last();
        assert(grown == bindings.push(binding));
        assert(is_part_of_buffer(
            inputs,
            device_id,
            fragment,
            binding,
            inputs.parameters[k].byte_offset,
            k,
        ));
        lemma_parameters_bound(inputs, dispatch, device_id, parameters, index + 1, grown);
        let all = fold_from(parameters, index + 1, grown, step)->Ok_0;
        assert forall|i: int| 0 <= i < bindings.len() implies #[trigger] all[i] == bindings[i] by {
            assert(all[i] == grown[i]);
        }
        assert(all[bindings.len() as int] == grown[bindings.len() as int]);
    }
}

proof fn lemma_selectors_bound(
    inputs: VulkanDistributedRunnerInputsModel,
    dispatch: VulkanDistributedDispatchPlanModel,
    device_id: Seq<char>,
    partitions: Seq<VulkanDistributedSelectedResourcePartitionPlanModel>,
    index: nat,
    bindings: Seq<VulkanResidentKernelBufferBinding>,
)
    requires
        index <= partitions.len(),
        fold_from(
            partitions,
            index,
            bindings,
            partition_binding_step(inputs, dispatch, device_id),
        ) is Ok,
    ensures
        ({
            let all = fold_from(
                partitions,
                index,
                bindings,
                partition_binding_step(inputs, dispatch, device_id),
            )->Ok_0;
            &&& all.len() == bindings.len() + 2 * (partitions.len() - index)
            &&& forall|i: int| 0 <= i < bindings.len() ==> #[trigger] all[i] == bindings[i]
            &&& forall|k: int|
                index <= k < partitions.len() ==> reads_selector(
                    inputs,
                    dispatch,
                    device_id,
                    #[trigger] partitions[k],
                    all[bindings.len() + 2 * (k - index)],
                    all[bindings.len() + 2 * (k - index) + 1],
                )
        }),
    decreases partitions.len() - index,
{
    let step = partition_binding_step(inputs, dispatch, device_id);
    if index < partitions.len() {
        let partition = partitions[index as int];
        let grown = step(bindings, partition)->Ok_0;
        lemma_selectors_bound(inputs, dispatch, device_id, partitions, index + 1, grown);
        let all = fold_from(partitions, index + 1, grown, step)->Ok_0;
        assert(grown.len() == bindings.len() + 2);
        assert forall|i: int| 0 <= i < bindings.len() implies #[trigger] all[i] == bindings[i] by {
            assert(all[i] == grown[i]);
        }
        assert(all[bindings.len() as int] == grown[bindings.len() as int]);
        assert(all[bindings.len() as int + 1] == grown[bindings.len() as int + 1]);
    }
}

/// The kernel of a shard is bound to what the shard reads and writes, and to nothing else:
/// the primary input, the auxiliary inputs, the output, the fragments of the parameters, and
/// the tables of the selectors, in this order. It writes the output alone.
pub proof fn law_kernels_are_bound_to_their_shard(
    inputs: VulkanDistributedRunnerInputsModel,
    dispatch: VulkanDistributedDispatchPlanModel,
    shard: VulkanDistributedDispatchShardModel,
    shard_index: usize,
    private_input: Option<VulkanResidentBuffer>,
    private_output: Option<VulkanResidentBuffer>,
)
    requires
        shard_bindings(inputs, dispatch, shard, shard_index, private_input, private_output) is Ok,
    ensures
        ({
            let bindings = shard_bindings(
                inputs,
                dispatch,
                shard,
                shard_index,
                private_input,
                private_output,
            )->Ok_0;
            let output = 1 + dispatch.auxiliary_input_activations.len();
            let selectors = output + 1 + shard.parameters.len();
            &&& bindings.len() == selectors + 2 * dispatch.selected_resource_partitions.len()
            &&& reads_primary_input(inputs, dispatch, shard, private_input, bindings[0])
            &&& shard.auxiliary_input_ranges.len() == dispatch.auxiliary_input_activations.len()
            &&& forall|i: int|
                1 <= i < output ==> reads_auxiliary_input(
                    inputs,
                    dispatch,
                    shard,
                    i - 1,
                    #[trigger] bindings[i],
                )
            &&& writes_output(
                inputs,
                dispatch,
                shard,
                shard_index,
                private_output,
                bindings[output as int],
            )
            &&& forall|i: int|
                output < i < selectors ==> reads_fragment(
                    inputs,
                    shard.device_id,
                    shard.parameters[i - output - 1],
                    #[trigger] bindings[i],
                )
            &&& forall|k: int|
                0 <= k < dispatch.selected_resource_partitions.len() ==> reads_selector(
                    inputs,
                    dispatch,
                    shard.device_id,
                    #[trigger] dispatch.selected_resource_partitions[k],
                    bindings[selectors + 2 * k],
                    bindings[selectors + 2 * k + 1],
                )
        }),
{
    let source = crate::runner_bindings::input_source(
        inputs,
        dispatch,
        shard,
        private_input,
    )->Ok_0;
    let target = crate::runner_bindings::output_target(
        inputs,
        dispatch,
        shard,
        shard_index,
        private_output,
    )->Ok_0;
    if private_input is None {
        law_devices_see_the_buffers_of_activations(
            inputs.activations,
            dispatch.owner_device_id,
            dispatch.input_activation,
            shard.device_id,
        );
    }
    if private_output is None && dispatch.reduction is None {
        law_devices_see_the_buffers_of_activations(
            inputs.activations,
            dispatch.owner_device_id,
            dispatch.output_activation,
            shard.device_id,
        );
    }
    let first = seq![
        crate::runner_bindings::bound(
            dispatch.input_activation.binding,
            source.0,
            source.1,
            shard.input_range.byte_count,
            VulkanResidentKernelBufferAccess::Read,
        ),
    ];
    lemma_auxiliary_bound(inputs, dispatch, shard, 0, first);
    let read = auxiliary_bindings_from(inputs, dispatch, shard, 0, first)->Ok_0;
    let written = read.push(
        crate::runner_bindings::bound(
            dispatch.output_activation.binding,
            target.0,
            target.1.0,
            target.1.1,
            VulkanResidentKernelBufferAccess::Write,
        ),
    );
    lemma_parameters_bound(
        inputs,
        dispatch,
        shard.device_id,
        shard.parameters,
        0,
        written,
    );
    let held = fold_from(
        shard.parameters,
        0,
        written,
        parameter_binding_step(inputs, dispatch, shard.device_id),
    )->Ok_0;
    lemma_selectors_bound(
        inputs,
        dispatch,
        shard.device_id,
        dispatch.selected_resource_partitions,
        0,
        held,
    );
    let bindings = shard_bindings(
        inputs,
        dispatch,
        shard,
        shard_index,
        private_input,
        private_output,
    )->Ok_0;
    let output = 1 + dispatch.auxiliary_input_activations.len();
    let selectors = output + 1 + shard.parameters.len();
    assert(read[0] == first[0]);
    assert(written[0] == first[0]);
    assert(held[0] == written[0]);
    assert(bindings[0] == held[0]);
    assert forall|i: int| 1 <= i < output implies reads_auxiliary_input(
        inputs,
        dispatch,
        shard,
        i - 1,
        #[trigger] bindings[i],
    ) by {
        assert(bindings[i] == held[i]);
        assert(held[i] == written[i]);
        assert(written[i] == read[i]);
    }
    assert(bindings[output as int] == held[output as int]);
    assert(held[output as int] == written[output as int]);
    assert forall|i: int| output < i < selectors implies reads_fragment(
        inputs,
        shard.device_id,
        shard.parameters[i - output - 1],
        #[trigger] bindings[i],
    ) by {
        assert(bindings[i] == held[i]);
    }
}

/// The number that four bytes stand for, the lowest first.
pub open spec fn number_in(bytes: Seq<u8>) -> int {
    bytes[0] + 256 * bytes[1] + 65536 * bytes[2] + 16777216 * bytes[3]
}

/// A kernel whose rows are cut gets no constants. Any other one is told where its part starts
/// and how long it is, as two numbers of four bytes: its own origin and rows, or, where it
/// owns resources of selectors, all resources that each selector chooses among.
pub proof fn law_kernels_are_told_their_part(
    dispatch: VulkanDistributedDispatchPlanModel,
    shard: VulkanDistributedDispatchShardModel,
)
    requires
        shard_constants(dispatch, shard) is Ok,
    ensures
        ({
            let bytes = shard_constants(dispatch, shard)->Ok_0;
            let owns = shard.selected_resource_indices.dom() != Set::<Seq<char>>::empty();
            &&& dispatch.distribution is OutputRows ==> bytes.len() == 0
            &&& !(dispatch.distribution is OutputRows) ==> bytes.len() == 8
            &&& !(dispatch.distribution is OutputRows) && !owns ==> number_in(bytes.take(4))
                == shard.base_workgroup_z && number_in(bytes.skip(4)) == shard.row_count
            &&& !(dispatch.distribution is OutputRows) && owns ==> {
                &&& number_in(bytes.take(4)) == 0
                &&& dispatch.selected_resource_partitions.len() > 0
                &&& forall|k: int|
                    0 <= k < dispatch.selected_resource_partitions.len() ==> number_in(
                        bytes.skip(4),
                    ) == (#[trigger] dispatch.selected_resource_partitions[k]).resource_count
                        && shard.selected_resource_indices.contains_key(
                        dispatch.selected_resource_partitions[k].selector_id,
                    )
            }
        }),
{
    if !(dispatch.distribution is OutputRows) {
        let (start, count) = crate::runner_bindings::repeated_range(dispatch, shard)->Ok_0;
        let bytes = shard_constants(dispatch, shard)->Ok_0;
        lemma_little_endian(start);
        lemma_little_endian(count as u32);
        assert(bytes.take(4) =~= crate::runner_bindings::little_endian(start));
        assert(bytes.skip(4) =~= crate::runner_bindings::little_endian(count as u32));
        if shard.selected_resource_indices.dom() == Set::<Seq<char>>::empty() {
            assert(shard.selected_resource_indices =~= Map::<Seq<char>, Seq<usize>>::empty());
        }
    }
}

proof fn lemma_little_endian(number: u32)
    ensures
        number_in(crate::runner_bindings::little_endian(number)) == number,
{
    let n = number as int;
    assert(n == n % 256 + 256 * (n / 256 % 256) + 65536 * (n / 65536 % 256) + 16777216 * (n
        / 16777216 % 256)) by {
        vstd::arithmetic::div_mod::lemma_fundamental_div_mod(n, 256);
        vstd::arithmetic::div_mod::lemma_fundamental_div_mod(n / 256, 256);
        vstd::arithmetic::div_mod::lemma_fundamental_div_mod(n / 65536, 256);
        vstd::arithmetic::div_mod::lemma_div_denominator(n, 256, 256);
        vstd::arithmetic::div_mod::lemma_div_denominator(n, 65536, 256);
        assert(n / 16777216 < 256) by (nonlinear_arith)
            requires
                n <= 4294967295,
        ;
    }
}

/// The kernel that the device of a shard is asked for runs the artifact of the dispatch with
/// the workgroups and the constants of the shard.
pub proof fn law_kernels_run_their_shard(
    inputs: VulkanDistributedRunnerInputsModel,
    dispatch: VulkanDistributedDispatchPlanModel,
    shard: VulkanDistributedDispatchShardModel,
    shard_index: usize,
    local_size_x: u32,
    private_input: Option<VulkanResidentBuffer>,
    private_output: Option<VulkanResidentBuffer>,
)
    requires
        shard_kernel(
            inputs,
            dispatch,
            shard,
            shard_index,
            local_size_x,
            private_input,
            private_output,
        ) is Ok,
    ensures
        ({
            let kernel = shard_kernel(
                inputs,
                dispatch,
                shard,
                shard_index,
                local_size_x,
                private_input,
                private_output,
            )->Ok_0;
            &&& kernel.device_id == shard.device_id
            &&& kernel.artifact_id == dispatch.physical_artifact_id
            &&& kernel.workgroup_count_x == shard.workgroup_count_x
            &&& kernel.local_size_x == local_size_x
            &&& shard_constants(dispatch, shard) is Ok
            &&& kernel.push_constant_byte_count == (if dispatch.distribution is OutputRows {
                0int
            } else {
                8
            })
            &&& shard_bindings(
                inputs,
                dispatch,
                shard,
                shard_index,
                private_input,
                private_output,
            ) == Ok::<Seq<VulkanResidentKernelBufferBinding>, Seq<char>>(kernel.bindings)
        }),
{
    law_kernels_are_told_their_part(dispatch, shard);
}

/// The write binding of the kernel of a shard.
pub open spec fn write_binding(
    inputs: VulkanDistributedRunnerInputsModel,
    plan: VulkanDistributedDispatchPlanModel,
    shard: int,
    private_input: Option<VulkanResidentBuffer>,
) -> VulkanResidentKernelBufferBinding {
    shard_bindings(
        inputs,
        plan,
        plan.shards[shard],
        shard as usize,
        private_input,
        None,
    )->Ok_0[1 + plan.auxiliary_input_activations.len() as int]
}

/// The kernels of the shards of a dispatch that publishes its output write disjoint bytes.
/// They write every byte of a concatenated output once, in the order of the shards, and every
/// partial output that is joined into a plane of its own.
pub proof fn law_kernels_write_apart(
    task: DispatchTaskModel,
    plan: VulkanDistributedDispatchPlanModel,
    inputs: VulkanDistributedRunnerInputsModel,
    private_inputs: Seq<Option<VulkanResidentBuffer>>,
)
    requires
        task.gives(plan),
        task.device_ids.no_duplicates(),
        task.device_ids.len() <= usize::MAX,
        plan.shards.len() <= usize::MAX,
        private_inputs.len() == plan.shards.len(),
        forall|i: int|
            0 <= i < plan.shards.len() ==> shard_bindings(
                inputs,
                plan,
                #[trigger] plan.shards[i],
                i as usize,
                private_inputs[i],
                None,
            ) is Ok,
    ensures
        forall|i: int|
            0 <= i < plan.shards.len() ==> (#[trigger] write_binding(
                inputs,
                plan,
                i,
                private_inputs[i],
            )).access is Write,
        plan.reduction is Some ==> forall|i: int|
            0 <= i < plan.shards.len() ==> (#[trigger] write_binding(
                inputs,
                plan,
                i,
                private_inputs[i],
            )).byte_offset == i * plan.reduction->0.partial_byte_capacity && write_binding(
                inputs,
                plan,
                i,
                private_inputs[i],
            ).byte_count == plan.reduction->0.partial_byte_capacity,
        plan.reduction is None && plan.output_collection is Concatenated ==> {
            let last = plan.shards.len() - 1;
            let ending = write_binding(inputs, plan, last, private_inputs[last]);
            &&& write_binding(inputs, plan, 0, private_inputs[0]).byte_offset == 0
            &&& ending.byte_offset + ending.byte_count == plan.output_byte_capacity
            &&& forall|i: int|
                0 <= i < last ==> (#[trigger] write_binding(
                    inputs,
                    plan,
                    i,
                    private_inputs[i],
                )).byte_offset + write_binding(inputs, plan, i, private_inputs[i]).byte_count
                    == write_binding(inputs, plan, i + 1, private_inputs[i + 1]).byte_offset
        },
{
    law_shards_tile_what_is_cut(task, plan);
    assert forall|i: int| 0 <= i < plan.shards.len() implies writes_output(
        inputs,
        plan,
        plan.shards[i],
        i as usize,
        None,
        #[trigger] write_binding(inputs, plan, i, private_inputs[i]),
    ) by {
        assert(shard_bindings(
            inputs,
            plan,
            plan.shards[i],
            i as usize,
            private_inputs[i],
            None,
        ) is Ok);
        law_kernels_are_bound_to_their_shard(
            inputs,
            plan,
            plan.shards[i],
            i as usize,
            private_inputs[i],
            None,
        );
    }
    if plan.reduction is None && plan.output_collection is Concatenated {
        let last = plan.shards.len() - 1;
        assert(written_capacity(plan) == plan.output_byte_capacity);
        assert(writes_output(
            inputs,
            plan,
            plan.shards[0],
            0,
            None,
            write_binding(inputs, plan, 0, private_inputs[0]),
        ));
        assert(writes_output(
            inputs,
            plan,
            plan.shards[last],
            last as usize,
            None,
            write_binding(inputs, plan, last, private_inputs[last]),
        ));
        assert forall|i: int| 0 <= i < last implies (#[trigger] write_binding(
            inputs,
            plan,
            i,
            private_inputs[i],
        )).byte_offset + write_binding(inputs, plan, i, private_inputs[i]).byte_count
            == write_binding(inputs, plan, i + 1, private_inputs[i + 1]).byte_offset by {
            let next = write_binding(inputs, plan, i + 1, private_inputs[i + 1]);
            assert(writes_output(
                inputs,
                plan,
                plan.shards[i + 1],
                (i + 1) as usize,
                None,
                next,
            ));
            assert(plan.shards[i].output_byte_offset + plan.shards[i].output_byte_count
                == plan.shards[i + 1].output_byte_offset);
        }
    }
}

} // verus!
