//! The buffers and constants that the kernels of a distributed dispatch get.
use vstd::prelude::*;

use crate::activation_building::{dispatch_name, name_dispatch};
use crate::activation_buffers::{
    VulkanDistributedActivationBuffers, VulkanDistributedActivationBuffersModel,
};
use crate::activation_lookups::{activation_seen, reduction_seen};
use crate::dispatch_shards::{
    VulkanDistributedDispatchShard, VulkanDistributedDispatchShardModel,
    VulkanDistributedParameterFragment, VulkanDistributedParameterFragmentModel,
};
use crate::errors::VulkanDistributedDispatchRunnerError;
use crate::execution_plans::{
    VulkanDistributedActivationSlot, VulkanDistributedActivationSlotModel,
    VulkanDistributedDispatchDistribution, VulkanDistributedDispatchPlan,
    VulkanDistributedDispatchPlanModel, VulkanDistributedSelectedResourcePartitionPlan,
    VulkanDistributedSelectedResourcePartitionPlanModel,
};
use crate::islands::append_all;
use crate::ordered::OrderedMap;
use crate::parameter_buffers::{
    buffer_holds, fragment_binding, VulkanDistributedParameterBufferAllocationModel,
    VulkanDistributedParameterBuffers,
};
use crate::resident::{
    VulkanResidentBuffer, VulkanResidentKernelBufferAccess, VulkanResidentKernelBufferBinding,
};
use crate::sequences::{append, find_from, fold_from, kept, lemma_kept_step};
use crate::text::{
    debug_text, decimal, decimal_text, decimal_u64, join10, join12, join2, join3, join4, join5,
    join6, join8, quoted,
};
use crate::values::PlainValue;

verus! {

/// The buffers of resources that are chosen while a device runs: a table of
/// addresses, and the slots of each component, node and selection signal.
#[derive(Debug, PartialEq, Eq)]
pub struct VulkanDynamicResourceBuffers {
    pub address_table: VulkanResidentBuffer,
    pub parameter_slots: OrderedMap<(String, (String, String)), VulkanResidentBuffer>,
}

/// The model of [`VulkanDynamicResourceBuffers`].
pub struct VulkanDynamicResourceBuffersModel {
    pub address_table: VulkanResidentBuffer,
    pub parameter_slots: Map<(Seq<char>, (Seq<char>, Seq<char>)), VulkanResidentBuffer>,
}

impl DeepView for VulkanDynamicResourceBuffers {
    type V = VulkanDynamicResourceBuffersModel;

    open spec fn deep_view(&self) -> VulkanDynamicResourceBuffersModel {
        VulkanDynamicResourceBuffersModel {
            address_table: self.address_table.deep_view(),
            parameter_slots: self.parameter_slots.deep_view(),
        }
    }
}

impl Clone for VulkanDynamicResourceBuffers {
    fn clone(&self) -> (copy: Self)
        ensures
            copy.deep_view() == self.deep_view(),
    {
        self.duplicate()
    }
}

impl PlainValue for VulkanDynamicResourceBuffers {
    fn duplicate(&self) -> (copy: Self) {
        VulkanDynamicResourceBuffers {
            address_table: self.address_table.duplicate(),
            parameter_slots: self.parameter_slots.duplicate(),
        }
    }

    fn same(&self, other: &Self) -> (equal: bool) {
        self.address_table.same(&other.address_table)
            && self.parameter_slots.same(&other.parameter_slots)
    }
}

/// A kernel that a device is asked to prepare.
#[derive(Debug, PartialEq, Eq)]
pub struct VulkanDistributedKernelRequest {
    pub device_id: String,
    pub artifact_id: String,
    pub bindings: Vec<VulkanResidentKernelBufferBinding>,
    pub workgroup_count_x: u32,
    pub local_size_x: u32,
    pub push_constant_byte_count: u32,
    pub label: String,
}

/// The model of [`VulkanDistributedKernelRequest`].
pub struct VulkanDistributedKernelRequestModel {
    pub device_id: Seq<char>,
    pub artifact_id: Seq<char>,
    pub bindings: Seq<VulkanResidentKernelBufferBinding>,
    pub workgroup_count_x: u32,
    pub local_size_x: u32,
    pub push_constant_byte_count: u32,
    pub label: Seq<char>,
}

impl DeepView for VulkanDistributedKernelRequest {
    type V = VulkanDistributedKernelRequestModel;

    open spec fn deep_view(&self) -> VulkanDistributedKernelRequestModel {
        VulkanDistributedKernelRequestModel {
            device_id: self.device_id.deep_view(),
            artifact_id: self.artifact_id.deep_view(),
            bindings: self.bindings.deep_view(),
            workgroup_count_x: self.workgroup_count_x.deep_view(),
            local_size_x: self.local_size_x.deep_view(),
            push_constant_byte_count: self.push_constant_byte_count.deep_view(),
            label: self.label.deep_view(),
        }
    }
}

impl Clone for VulkanDistributedKernelRequest {
    fn clone(&self) -> (copy: Self)
        ensures
            copy.deep_view() == self.deep_view(),
    {
        self.duplicate()
    }
}

impl PlainValue for VulkanDistributedKernelRequest {
    fn duplicate(&self) -> (copy: Self) {
        VulkanDistributedKernelRequest {
            device_id: self.device_id.duplicate(),
            artifact_id: self.artifact_id.duplicate(),
            bindings: self.bindings.duplicate(),
            workgroup_count_x: self.workgroup_count_x.duplicate(),
            local_size_x: self.local_size_x.duplicate(),
            push_constant_byte_count: self.push_constant_byte_count.duplicate(),
            label: self.label.duplicate(),
        }
    }

    fn same(&self, other: &Self) -> (equal: bool) {
        self.device_id.same(&other.device_id)
            && self.artifact_id.same(&other.artifact_id)
            && self.bindings.same(&other.bindings)
            && self.workgroup_count_x.same(&other.workgroup_count_x)
            && self.local_size_x.same(&other.local_size_x)
            && self.push_constant_byte_count.same(&other.push_constant_byte_count)
            && self.label.same(&other.label)
    }
}

/// What the runners of a plan are made from.
pub struct VulkanDistributedRunnerInputs {
    pub parameter_buffers: VulkanDistributedParameterBuffers,
    pub activation_buffers: VulkanDistributedActivationBuffers,
    pub dynamic_resource_buffers: OrderedMap<String, VulkanDynamicResourceBuffers>,
    /// Whether the resources of each device are loaded on demand.
    pub resource_stores: OrderedMap<String, bool>,
    pub transaction_predicates: Option<OrderedMap<String, VulkanResidentBuffer>>,
    pub execution_scope: String,
    /// The local size of every artifact that is loaded.
    pub artifacts: OrderedMap<String, u32>,
}

/// The model of [`VulkanDistributedRunnerInputs`].
pub struct VulkanDistributedRunnerInputsModel {
    pub parameters: Seq<VulkanDistributedParameterBufferAllocationModel>,
    pub activations: VulkanDistributedActivationBuffersModel,
    pub dynamic_resource_buffers: Map<Seq<char>, VulkanDynamicResourceBuffersModel>,
    pub resource_stores: Map<Seq<char>, bool>,
    pub transaction_predicates: Option<Map<Seq<char>, VulkanResidentBuffer>>,
    pub execution_scope: Seq<char>,
    pub artifacts: Map<Seq<char>, u32>,
}

impl DeepView for VulkanDistributedRunnerInputs {
    type V = VulkanDistributedRunnerInputsModel;

    open spec fn deep_view(&self) -> VulkanDistributedRunnerInputsModel {
        VulkanDistributedRunnerInputsModel {
            parameters: self.parameter_buffers.buffers.deep_view(),
            activations: self.activation_buffers.deep_view(),
            dynamic_resource_buffers: self.dynamic_resource_buffers.deep_view(),
            resource_stores: self.resource_stores.deep_view(),
            transaction_predicates: self.transaction_predicates.deep_view(),
            execution_scope: self.execution_scope.deep_view(),
            artifacts: self.artifacts.deep_view(),
        }
    }
}

/// The outcome is the expected one, or an error with the expected text.
pub open spec fn runner_agrees<T: DeepView>(
    outcome: Result<T, VulkanDistributedDispatchRunnerError>,
    expected: Result<T::V, Seq<char>>,
) -> bool {
    match outcome {
        Ok(value) => expected is Ok && expected->Ok_0 == value.deep_view(),
        Err(error) => expected is Err && expected->Err_0 == error.0@,
    }
}

pub(crate) fn runner_fault<T>(message: String) -> (outcome: Result<
    T,
    VulkanDistributedDispatchRunnerError,
>)
    ensures
        outcome is Err,
        outcome->Err_0.0@ == message@,
{
    Err(VulkanDistributedDispatchRunnerError(message))
}

/// The activation is the signal of the component.
pub open spec fn carries_signal(component_id: Seq<char>, signal_id: Seq<char>) -> spec_fn(
    VulkanDistributedActivationSlotModel,
) -> bool {
    |activation: VulkanDistributedActivationSlotModel|
        activation.component_id == component_id && activation.signal_id == signal_id
}

/// The inputs of a dispatch that carry a signal.
pub open spec fn signal_inputs(
    dispatch: VulkanDistributedDispatchPlanModel,
    selection_signal: Seq<char>,
) -> Seq<VulkanDistributedActivationSlotModel> {
    kept(
        seq![dispatch.input_activation] + dispatch.auxiliary_input_activations,
        carries_signal(dispatch.component_id, selection_signal),
    )
}

/// The one input of a dispatch that carries a signal, or the text of the error.
pub open spec fn selecting_activation(
    dispatch: VulkanDistributedDispatchPlanModel,
    selection_signal: Seq<char>,
) -> Result<VulkanDistributedActivationSlotModel, Seq<char>> {
    let matching = signal_inputs(dispatch, selection_signal);
    if matching.len() == 1 {
        Ok(matching[0])
    } else {
        Err(
            "distributed selected-resource dispatch "@ + dispatch_name(dispatch) + " resolves "@
                + decimal_text(matching.len()) + " activation signals named "@ + debug_text(
                selection_signal,
            ),
        )
    }
}

/// Finds the one input of a dispatch that carries a signal.
pub fn selected_resource_activation(
    dispatch: &VulkanDistributedDispatchPlan,
    selection_signal: &String,
) -> (outcome: Result<VulkanDistributedActivationSlot, VulkanDistributedDispatchRunnerError>)
    ensures
        runner_agrees(outcome, selecting_activation(dispatch.deep_view(), selection_signal@)),
{
    let mut inputs: Vec<VulkanDistributedActivationSlot> = Vec::new();
    assert(inputs.deep_view() =~= Seq::empty());
    append(&mut inputs, dispatch.input_activation.duplicate());
    append_all(&mut inputs, &dispatch.auxiliary_input_activations);
    let ghost all = inputs.deep_view();
    assert(all =~= seq![dispatch.deep_view().input_activation]
        + dispatch.deep_view().auxiliary_input_activations);
    let ghost condition = carries_signal(dispatch.component_id@, selection_signal@);
    let mut matching: Vec<VulkanDistributedActivationSlot> = Vec::new();
    assert(matching.deep_view() =~= kept(all.take(0), condition));
    for index in 0..inputs.len()
        invariant
            all == inputs.deep_view(),
            condition == carries_signal(dispatch.component_id@, selection_signal@),
            matching.deep_view() == kept(all.take(index as int), condition),
    {
        proof {
            lemma_kept_step(all, condition, index as int);
            assert(all[index as int] == inputs@[index as int].deep_view());
        }
        let activation = &inputs[index];
        if activation.component_id == dispatch.component_id && activation.signal_id
            == *selection_signal {
            append(&mut matching, activation.duplicate());
        }
    }
    assert(all.take(all.len() as int) =~= all);
    if matching.len() == 1 {
        assert(matching.deep_view()[0] == matching@[0].deep_view());
        return Ok(matching[0].duplicate());
    }
    runner_fault(
        join6(
            "distributed selected-resource dispatch ",
            name_dispatch(dispatch).as_str(),
            " resolves ",
            decimal(matching.len()).as_str(),
            " activation signals named ",
            quoted(selection_signal.as_str()).as_str(),
        ),
    )
}

/// The bytes of a number, the lowest first.
pub open spec fn little_endian(number: u32) -> Seq<u8> {
    seq![
        (number as int % 256) as u8,
        (number as int / 256 % 256) as u8,
        (number as int / 65536 % 256) as u8,
        (number as int / 16777216 % 256) as u8,
    ]
}

fn push_little_endian(bytes: &mut Vec<u8>, number: u32)
    ensures
        final(bytes)@ == old(bytes)@ + little_endian(number),
{
    let ghost before = bytes@;
    bytes.push((number % 256) as u8);
    bytes.push((number / 256 % 256) as u8);
    bytes.push((number / 65536 % 256) as u8);
    bytes.push((number / 16777216 % 256) as u8);
    assert(bytes@ =~= before + little_endian(number));
}

/// The selectors of a dispatch choose among equally many resources.
pub open spec fn same_extents(
    partitions: Seq<VulkanDistributedSelectedResourcePartitionPlanModel>,
) -> bool {
    partitions.len() > 0 && forall|i: int|
        0 <= i < partitions.len() ==> (#[trigger] partitions[i]).resource_count
            == partitions[0].resource_count
}

/// A shard owns resources of each selector and of no other.
pub open spec fn owns_every_selector(
    partitions: Seq<VulkanDistributedSelectedResourcePartitionPlanModel>,
    shard: VulkanDistributedDispatchShardModel,
) -> bool {
    partitions.len() == shard.selected_resource_indices.dom().len() && forall|i: int|
        0 <= i < partitions.len() ==> shard.selected_resource_indices.contains_key(
            (#[trigger] partitions[i]).selector_id,
        )
}

/// Where the repeated part of a shard starts and how long it is, or the text of the
/// error.
pub open spec fn repeated_range(
    dispatch: VulkanDistributedDispatchPlanModel,
    shard: VulkanDistributedDispatchShardModel,
) -> Result<(u32, usize), Seq<char>> {
    let partitions = dispatch.selected_resource_partitions;
    if shard.selected_resource_indices == Map::<Seq<char>, Seq<usize>>::empty() {
        Ok((shard.base_workgroup_z, shard.row_count))
    } else if !same_extents(partitions) {
        Err(
            "distributed selected-resource dispatch "@ + dispatch_name(dispatch)
                + " has incompatible selector extents"@,
        )
    } else if !owns_every_selector(partitions, shard) {
        Err(
            "distributed selected-resource dispatch "@ + dispatch_name(dispatch)
                + " has incomplete shard ownership"@,
        )
    } else {
        Ok((0, partitions[0].resource_count))
    }
}

/// The constants that the kernel of a shard gets, or the text of the error.
pub open spec fn shard_constants(
    dispatch: VulkanDistributedDispatchPlanModel,
    shard: VulkanDistributedDispatchShardModel,
) -> Result<Seq<u8>, Seq<char>> {
    if dispatch.distribution is OutputRows {
        Ok(Seq::empty())
    } else {
        match repeated_range(dispatch, shard) {
            Err(message) => Err(message),
            Ok(range) => if range.1 > u32::MAX {
                Err("distributed repeated partition count exceeds u32"@)
            } else {
                Ok(little_endian(range.0) + little_endian(range.1 as u32))
            },
        }
    }
}

fn extents_are_same(partitions: &Vec<VulkanDistributedSelectedResourcePartitionPlan>) -> (result:
    bool)
    ensures
        result == same_extents(partitions.deep_view()),
{
    let ghost all = partitions.deep_view();
    if partitions.len() == 0 {
        return false;
    }
    assert(all[0] == partitions@[0].deep_view());
    for index in 0..partitions.len()
        invariant
            all == partitions.deep_view(),
            partitions.len() > 0,
            all[0] == partitions@[0].deep_view(),
            forall|i: int|
                0 <= i < index ==> (#[trigger] all[i]).resource_count == all[0].resource_count,
    {
        assert(all[index as int] == partitions@[index as int].deep_view());
        if partitions[index].resource_count != partitions[0].resource_count {
            return false;
        }
    }
    true
}

fn every_selector_is_owned(
    partitions: &Vec<VulkanDistributedSelectedResourcePartitionPlan>,
    shard: &VulkanDistributedDispatchShard,
) -> (result: bool)
    ensures
        result == owns_every_selector(partitions.deep_view(), shard.deep_view()),
{
    let ghost all = partitions.deep_view();
    if partitions.len() != shard.selected_resource_indices.len() {
        return false;
    }
    for index in 0..partitions.len()
        invariant
            all == partitions.deep_view(),
            forall|i: int|
                0 <= i < index ==> shard.deep_view().selected_resource_indices.contains_key(
                    (#[trigger] all[i]).selector_id,
                ),
    {
        assert(all[index as int] == partitions@[index as int].deep_view());
        if shard.selected_resource_indices.get(&partitions[index].selector_id).is_none() {
            return false;
        }
    }
    true
}

/// Computes the constants that the kernel of a shard gets.
pub fn distributed_shard_push_constants(
    planned_dispatch: &VulkanDistributedDispatchPlan,
    planned_shard: &VulkanDistributedDispatchShard,
) -> (outcome: Result<Vec<u8>, VulkanDistributedDispatchRunnerError>)
    ensures
        runner_agrees(
            outcome,
            shard_constants(planned_dispatch.deep_view(), planned_shard.deep_view()),
        ),
{
    let mut bytes: Vec<u8> = Vec::new();
    assert(bytes.deep_view() =~= Seq::<u8>::empty());
    match planned_dispatch.distribution {
        VulkanDistributedDispatchDistribution::OutputRows => {
            return Ok(bytes);
        },
        _ => {},
    }
    let mut start: u32 = planned_shard.base_workgroup_z;
    let mut count: usize = planned_shard.row_count;
    if !planned_shard.selected_resource_indices.is_empty() {
        let partitions = &planned_dispatch.selected_resource_partitions;
        if !extents_are_same(partitions) {
            return runner_fault(
                join3(
                    "distributed selected-resource dispatch ",
                    name_dispatch(planned_dispatch).as_str(),
                    " has incompatible selector extents",
                ),
            );
        }
        if !every_selector_is_owned(partitions, planned_shard) {
            return runner_fault(
                join3(
                    "distributed selected-resource dispatch ",
                    name_dispatch(planned_dispatch).as_str(),
                    " has incomplete shard ownership",
                ),
            );
        }
        assert(partitions.deep_view()[0] == partitions@[0].deep_view());
        start = 0;
        count = partitions[0].resource_count;
    }
    if count > u32::MAX as usize {
        return runner_fault("distributed repeated partition count exceeds u32".to_owned());
    }
    push_little_endian(&mut bytes, start);
    push_little_endian(&mut bytes, count as u32);
    assert(bytes.deep_view() =~= little_endian(start) + little_endian(count as u32));
    Ok(bytes)
}

/// The buffer that a shard reads its input from, and the offset there.
pub open spec fn input_source(
    inputs: VulkanDistributedRunnerInputsModel,
    dispatch: VulkanDistributedDispatchPlanModel,
    shard: VulkanDistributedDispatchShardModel,
    private_input: Option<VulkanResidentBuffer>,
) -> Result<(VulkanResidentBuffer, usize), Seq<char>> {
    match private_input {
        Some(buffer) => Ok((buffer, 0)),
        None => match activation_seen(
            inputs.activations,
            dispatch.owner_device_id,
            dispatch.input_activation,
            shard.device_id,
        ) {
            Some(buffer) => Ok((buffer, shard.input_range.byte_offset)),
            None => Err(
                "distributed dispatch "@ + dispatch_name(dispatch)
                    + " has no input activation on "@ + debug_text(shard.device_id),
            ),
        },
    }
}

/// The buffer that a shard writes its output to, with the offset and the bytes there.
pub open spec fn output_target(
    inputs: VulkanDistributedRunnerInputsModel,
    dispatch: VulkanDistributedDispatchPlanModel,
    shard: VulkanDistributedDispatchShardModel,
    shard_index: usize,
    private_output: Option<VulkanResidentBuffer>,
) -> Result<(VulkanResidentBuffer, (usize, usize)), Seq<char>> {
    match dispatch.reduction {
        Some(reduction) => if private_output is Some {
            Err(
                "distributed reduction "@ + dispatch_name(dispatch)
                    + " cannot publish a private intermediate"@,
            )
        } else {
            match reduction_seen(
                inputs.activations,
                dispatch.owner_device_id,
                dispatch.dispatch_index,
                shard.device_id,
            ) {
                None => Err(
                    "distributed dispatch "@ + dispatch_name(dispatch)
                        + " has no partial plane on "@ + debug_text(shard.device_id),
                ),
                Some(buffer) => if shard.output_byte_offset != 0 || shard.output_byte_count
                    != reduction.partial_byte_capacity {
                    Err(
                        "distributed dispatch "@ + dispatch_name(dispatch) + " shard "@
                            + decimal_text(shard_index as nat)
                            + " has an invalid partial-output range"@,
                    )
                } else if shard_index * reduction.partial_byte_capacity > usize::MAX {
                    Err("distributed partial plane offset overflowed"@)
                } else {
                    Ok(
                        (
                            buffer,
                            (
                                (shard_index * reduction.partial_byte_capacity) as usize,
                                reduction.partial_byte_capacity,
                            ),
                        ),
                    )
                },
            }
        },
        None => match private_output {
            Some(buffer) => Ok((buffer, (0, shard.output_byte_count))),
            None => match activation_seen(
                inputs.activations,
                dispatch.owner_device_id,
                dispatch.output_activation,
                shard.device_id,
            ) {
                Some(buffer) => Ok((buffer, (shard.output_byte_offset, shard.output_byte_count))),
                None => Err(
                    "distributed dispatch "@ + dispatch_name(dispatch)
                        + " has no output activation on "@ + debug_text(shard.device_id),
                ),
            },
        },
    }
}

/// Bytes of a buffer at a binding.
pub open spec fn bound(
    binding: usize,
    buffer: VulkanResidentBuffer,
    byte_offset: usize,
    byte_count: usize,
    access: VulkanResidentKernelBufferAccess,
) -> VulkanResidentKernelBufferBinding {
    VulkanResidentKernelBufferBinding {
        binding: binding as u32,
        buffer,
        byte_offset,
        byte_count,
        access,
    }
}

/// Binds the auxiliary inputs from an index on.
pub open spec fn auxiliary_bindings_from(
    inputs: VulkanDistributedRunnerInputsModel,
    dispatch: VulkanDistributedDispatchPlanModel,
    shard: VulkanDistributedDispatchShardModel,
    index: nat,
    bindings: Seq<VulkanResidentKernelBufferBinding>,
) -> Result<Seq<VulkanResidentKernelBufferBinding>, Seq<char>>
    decreases dispatch.auxiliary_input_activations.len() - index,
{
    if index >= dispatch.auxiliary_input_activations.len() {
        Ok(bindings)
    } else {
        let auxiliary = dispatch.auxiliary_input_activations[index as int];
        let range = shard.auxiliary_input_ranges[index as int];
        match activation_seen(
            inputs.activations,
            dispatch.owner_device_id,
            auxiliary,
            shard.device_id,
        ) {
            None => Err(
                "distributed dispatch "@ + dispatch_name(dispatch) + " has no auxiliary input "@
                    + auxiliary.signal_id + " on "@ + debug_text(shard.device_id),
            ),
            Some(buffer) => if auxiliary.binding > u32::MAX {
                Err("distributed auxiliary input binding exceeds u32"@)
            } else {
                auxiliary_bindings_from(
                    inputs,
                    dispatch,
                    shard,
                    index + 1,
                    bindings.push(
                        bound(
                            auxiliary.binding,
                            buffer,
                            range.byte_offset,
                            range.byte_count,
                            VulkanResidentKernelBufferAccess::Read,
                        ),
                    ),
                )
            },
        }
    }
}

/// Binds a fragment of a parameter.
pub open spec fn parameter_binding_step(
    inputs: VulkanDistributedRunnerInputsModel,
    dispatch: VulkanDistributedDispatchPlanModel,
    device_id: Seq<char>,
) -> spec_fn(
    Seq<VulkanResidentKernelBufferBinding>,
    VulkanDistributedParameterFragmentModel,
) -> Result<Seq<VulkanResidentKernelBufferBinding>, Seq<char>> {
    |
        bindings: Seq<VulkanResidentKernelBufferBinding>,
        fragment: VulkanDistributedParameterFragmentModel,
    |
        match find_from(
            inputs.parameters,
            0,
            buffer_holds(device_id, fragment.tensor, fragment.byte_offset, fragment.byte_count),
        ) {
            None => Err(
                "distributed dispatch "@ + dispatch_name(dispatch) + " has no tensor "@
                    + debug_text(fragment.tensor) + " range at byte "@ + decimal_text(
                    fragment.byte_offset as nat,
                ) + " with length "@ + decimal_text(fragment.byte_count as nat) + " on "@
                    + debug_text(device_id),
            ),
            Some(allocation) => if fragment.binding > u32::MAX {
                Err(
                    "distributed descriptor binding "@ + decimal_text(fragment.binding as nat)
                        + " exceeds u32"@,
                )
            } else {
                match fragment_binding(
                    allocation,
                    fragment.binding as u32,
                    fragment.byte_offset,
                    fragment.byte_count,
                ) {
                    Err(message) => Err(
                        "failed to bind distributed tensor fragment: "@ + message,
                    ),
                    Ok(binding) => Ok(
                        bindings.push(
                            VulkanResidentKernelBufferBinding {
                                access: VulkanResidentKernelBufferAccess::Read,
                                ..binding
                            },
                        ),
                    ),
                }
            },
        }
}

/// Binds the address table and the parameter slots of a selector.
pub open spec fn partition_binding_step(
    inputs: VulkanDistributedRunnerInputsModel,
    dispatch: VulkanDistributedDispatchPlanModel,
    device_id: Seq<char>,
) -> spec_fn(
    Seq<VulkanResidentKernelBufferBinding>,
    VulkanDistributedSelectedResourcePartitionPlanModel,
) -> Result<Seq<VulkanResidentKernelBufferBinding>, Seq<char>> {
    |
        bindings: Seq<VulkanResidentKernelBufferBinding>,
        partition: VulkanDistributedSelectedResourcePartitionPlanModel,
    |
        if !inputs.dynamic_resource_buffers.contains_key(device_id) {
            Err(
                "distributed dispatch "@ + dispatch_name(dispatch)
                    + " has no dynamic resource buffers on "@ + debug_text(device_id),
            )
        } else {
            let resources = inputs.dynamic_resource_buffers[device_id];
            let key = (
                dispatch.component_id,
                (dispatch.node_id, partition.selection_signal),
            );
            if !resources.parameter_slots.contains_key(key) {
                Err(
                    "distributed dispatch "@ + dispatch_name(dispatch)
                        + " has no parameter slots for selector "@ + debug_text(
                        partition.selector_id,
                    ) + " on "@ + debug_text(device_id),
                )
            } else if partition.address_table_binding > u32::MAX {
                Err("distributed dynamic address-table binding exceeds u32"@)
            } else if partition.parameter_slots_binding > u32::MAX {
                Err("distributed dynamic parameter-slot binding exceeds u32"@)
            } else {
                let table = resources.address_table;
                let slots = resources.parameter_slots[key];
                Ok(
                    bindings.push(
                        bound(
                            partition.address_table_binding,
                            table,
                            0,
                            table.byte_capacity,
                            VulkanResidentKernelBufferAccess::Read,
                        ),
                    ).push(
                        bound(
                            partition.parameter_slots_binding,
                            slots,
                            0,
                            slots.byte_capacity,
                            VulkanResidentKernelBufferAccess::Read,
                        ),
                    ),
                )
            }
        }
}

/// The buffers that the kernel of a shard gets, or the text of the error.
pub open spec fn shard_bindings(
    inputs: VulkanDistributedRunnerInputsModel,
    dispatch: VulkanDistributedDispatchPlanModel,
    shard: VulkanDistributedDispatchShardModel,
    shard_index: usize,
    private_input: Option<VulkanResidentBuffer>,
    private_output: Option<VulkanResidentBuffer>,
) -> Result<Seq<VulkanResidentKernelBufferBinding>, Seq<char>> {
    match input_source(inputs, dispatch, shard, private_input) {
        Err(message) => Err(message),
        Ok(input) => match output_target(inputs, dispatch, shard, shard_index, private_output) {
            Err(message) => Err(message),
            Ok(output) => if dispatch.input_activation.binding > u32::MAX {
                Err("distributed primary input binding exceeds u32"@)
            } else if shard.auxiliary_input_ranges.len()
                != dispatch.auxiliary_input_activations.len() {
                Err(
                    "distributed dispatch "@ + dispatch_name(dispatch) + " has "@ + decimal_text(
                        shard.auxiliary_input_ranges.len(),
                    ) + " auxiliary ranges for "@ + decimal_text(
                        dispatch.auxiliary_input_activations.len(),
                    ) + " auxiliary inputs on "@ + debug_text(shard.device_id),
                )
            } else {
                match auxiliary_bindings_from(
                    inputs,
                    dispatch,
                    shard,
                    0,
                    seq![
                        bound(
                            dispatch.input_activation.binding,
                            input.0,
                            input.1,
                            shard.input_range.byte_count,
                            VulkanResidentKernelBufferAccess::Read,
                        ),
                    ],
                ) {
                    Err(message) => Err(message),
                    Ok(bindings) => if dispatch.output_activation.binding > u32::MAX {
                        Err("distributed output binding exceeds u32"@)
                    } else {
                        match fold_from(
                            shard.parameters,
                            0,
                            bindings.push(
                                bound(
                                    dispatch.output_activation.binding,
                                    output.0,
                                    output.1.0,
                                    output.1.1,
                                    VulkanResidentKernelBufferAccess::Write,
                                ),
                            ),
                            parameter_binding_step(inputs, dispatch, shard.device_id),
                        ) {
                            Err(message) => Err(message),
                            Ok(bindings) => fold_from(
                                dispatch.selected_resource_partitions,
                                0,
                                bindings,
                                partition_binding_step(inputs, dispatch, shard.device_id),
                            ),
                        }
                    },
                }
            },
        },
    }
}

fn find_input_source(
    inputs: &VulkanDistributedRunnerInputs,
    dispatch: &VulkanDistributedDispatchPlan,
    shard: &VulkanDistributedDispatchShard,
    private_input: Option<VulkanResidentBuffer>,
) -> (outcome: Result<(VulkanResidentBuffer, usize), VulkanDistributedDispatchRunnerError>)
    ensures
        runner_agrees(
            outcome,
            input_source(
                inputs.deep_view(),
                dispatch.deep_view(),
                shard.deep_view(),
                private_input,
            ),
        ),
{
    match private_input {
        Some(buffer) => Ok((buffer, 0)),
        None => match inputs.activation_buffers.activation_buffer(
            dispatch.owner_device_id.as_str(),
            &dispatch.input_activation,
            shard.device_id.as_str(),
        ) {
            Some(buffer) => Ok((*buffer, shard.input_range.byte_offset)),
            None => runner_fault(
                join4(
                    "distributed dispatch ",
                    name_dispatch(dispatch).as_str(),
                    " has no input activation on ",
                    quoted(shard.device_id.as_str()).as_str(),
                ),
            ),
        },
    }
}

fn find_output_target(
    inputs: &VulkanDistributedRunnerInputs,
    dispatch: &VulkanDistributedDispatchPlan,
    shard: &VulkanDistributedDispatchShard,
    shard_index: usize,
    private_output: Option<VulkanResidentBuffer>,
) -> (outcome: Result<
    (VulkanResidentBuffer, (usize, usize)),
    VulkanDistributedDispatchRunnerError,
>)
    ensures
        runner_agrees(
            outcome,
            output_target(
                inputs.deep_view(),
                dispatch.deep_view(),
                shard.deep_view(),
                shard_index,
                private_output,
            ),
        ),
{
    match &dispatch.reduction {
        Some(reduction) => {
            if private_output.is_some() {
                return runner_fault(
                    join3(
                        "distributed reduction ",
                        name_dispatch(dispatch).as_str(),
                        " cannot publish a private intermediate",
                    ),
                );
            }
            match inputs.activation_buffers.reduction_partial_buffer(
                dispatch.owner_device_id.as_str(),
                dispatch.dispatch_index,
                shard.device_id.as_str(),
            ) {
                None => runner_fault(
                    join4(
                        "distributed dispatch ",
                        name_dispatch(dispatch).as_str(),
                        " has no partial plane on ",
                        quoted(shard.device_id.as_str()).as_str(),
                    ),
                ),
                Some(buffer) => {
                    if shard.output_byte_offset != 0 || shard.output_byte_count
                        != reduction.partial_byte_capacity {
                        return runner_fault(
                            join5(
                                "distributed dispatch ",
                                name_dispatch(dispatch).as_str(),
                                " shard ",
                                decimal(shard_index).as_str(),
                                " has an invalid partial-output range",
                            ),
                        );
                    }
                    match shard_index.checked_mul(reduction.partial_byte_capacity) {
                        None => runner_fault(
                            "distributed partial plane offset overflowed".to_owned(),
                        ),
                        Some(offset) => Ok((*buffer, (offset, reduction.partial_byte_capacity))),
                    }
                },
            }
        },
        None => match private_output {
            Some(buffer) => Ok((buffer, (0, shard.output_byte_count))),
            None => match inputs.activation_buffers.activation_buffer(
                dispatch.owner_device_id.as_str(),
                &dispatch.output_activation,
                shard.device_id.as_str(),
            ) {
                Some(buffer) => Ok((*buffer, (shard.output_byte_offset, shard.output_byte_count))),
                None => runner_fault(
                    join4(
                        "distributed dispatch ",
                        name_dispatch(dispatch).as_str(),
                        " has no output activation on ",
                        quoted(shard.device_id.as_str()).as_str(),
                    ),
                ),
            },
        },
    }
}

fn bind(
    binding: usize,
    buffer: VulkanResidentBuffer,
    byte_offset: usize,
    byte_count: usize,
    access: VulkanResidentKernelBufferAccess,
) -> (result: VulkanResidentKernelBufferBinding)
    requires
        binding <= u32::MAX,
    ensures
        result == bound(binding, buffer, byte_offset, byte_count, access),
{
    VulkanResidentKernelBufferBinding::new(
        binding as u32,
        &buffer,
        byte_count,
    ).with_byte_offset(byte_offset).with_access(access)
}

fn bind_auxiliary_inputs(
    inputs: &VulkanDistributedRunnerInputs,
    dispatch: &VulkanDistributedDispatchPlan,
    shard: &VulkanDistributedDispatchShard,
    bindings: &mut Vec<VulkanResidentKernelBufferBinding>,
) -> (outcome: Result<(), VulkanDistributedDispatchRunnerError>)
    requires
        shard.auxiliary_input_ranges.len() == dispatch.auxiliary_input_activations.len(),
    ensures
        match outcome {
            Ok(_) => auxiliary_bindings_from(
                inputs.deep_view(),
                dispatch.deep_view(),
                shard.deep_view(),
                0,
                old(bindings).deep_view(),
            ) == Ok::<Seq<VulkanResidentKernelBufferBinding>, Seq<char>>(
                final(bindings).deep_view(),
            ),
            Err(error) => auxiliary_bindings_from(
                inputs.deep_view(),
                dispatch.deep_view(),
                shard.deep_view(),
                0,
                old(bindings).deep_view(),
            ) == Err::<Seq<VulkanResidentKernelBufferBinding>, Seq<char>>(error.0@),
        },
{
    let ghost before = bindings.deep_view();
    for index in 0..dispatch.auxiliary_input_activations.len()
        invariant
            shard.auxiliary_input_ranges.len() == dispatch.auxiliary_input_activations.len(),
            before == old(bindings).deep_view(),
            auxiliary_bindings_from(
                inputs.deep_view(),
                dispatch.deep_view(),
                shard.deep_view(),
                0,
                before,
            ) == auxiliary_bindings_from(
                inputs.deep_view(),
                dispatch.deep_view(),
                shard.deep_view(),
                index as nat,
                bindings.deep_view(),
            ),
    {
        let auxiliary = &dispatch.auxiliary_input_activations[index];
        let range = shard.auxiliary_input_ranges[index];
        assert(dispatch.deep_view().auxiliary_input_activations[index as int]
            == auxiliary.deep_view());
        assert(shard.deep_view().auxiliary_input_ranges[index as int] == range);
        match inputs.activation_buffers.activation_buffer(
            dispatch.owner_device_id.as_str(),
            auxiliary,
            shard.device_id.as_str(),
        ) {
            None => {
                return runner_fault(
                    join6(
                        "distributed dispatch ",
                        name_dispatch(dispatch).as_str(),
                        " has no auxiliary input ",
                        auxiliary.signal_id.as_str(),
                        " on ",
                        quoted(shard.device_id.as_str()).as_str(),
                    ),
                );
            },
            Some(buffer) => {
                if auxiliary.binding > u32::MAX as usize {
                    return runner_fault(
                        "distributed auxiliary input binding exceeds u32".to_owned(),
                    );
                }
                append(
                    bindings,
                    bind(
                        auxiliary.binding,
                        *buffer,
                        range.byte_offset,
                        range.byte_count,
                        VulkanResidentKernelBufferAccess::Read,
                    ),
                );
            },
        }
    }
    Ok(())
}

fn bind_parameter(
    inputs: &VulkanDistributedRunnerInputs,
    dispatch: &VulkanDistributedDispatchPlan,
    device_id: &String,
    fragment: &VulkanDistributedParameterFragment,
) -> (outcome: Result<VulkanResidentKernelBufferBinding, VulkanDistributedDispatchRunnerError>)
    ensures
        forall|bindings: Seq<VulkanResidentKernelBufferBinding>| #[trigger]
            parameter_binding_step(inputs.deep_view(), dispatch.deep_view(), device_id@)(
                bindings,
                fragment.deep_view(),
            ) == match outcome {
                Ok(binding) => Ok::<Seq<VulkanResidentKernelBufferBinding>, Seq<char>>(
                    bindings.push(binding),
                ),
                Err(error) => Err::<Seq<VulkanResidentKernelBufferBinding>, Seq<char>>(error.0@),
            },
{
    match inputs.parameter_buffers.parameter_buffer(
        device_id.as_str(),
        fragment.tensor.as_str(),
        fragment.byte_offset,
        fragment.byte_count,
    ) {
        None => runner_fault(
            join10(
                "distributed dispatch ",
                name_dispatch(dispatch).as_str(),
                " has no tensor ",
                quoted(fragment.tensor.as_str()).as_str(),
                " range at byte ",
                decimal(fragment.byte_offset).as_str(),
                " with length ",
                decimal(fragment.byte_count).as_str(),
                " on ",
                quoted(device_id.as_str()).as_str(),
            ),
        ),
        Some(allocation) => {
            if fragment.binding > u32::MAX as usize {
                return runner_fault(
                    join3(
                        "distributed descriptor binding ",
                        decimal(fragment.binding).as_str(),
                        " exceeds u32",
                    ),
                );
            }
            match allocation.kernel_binding_for_fragment(
                fragment.binding as u32,
                fragment.byte_offset,
                fragment.byte_count,
            ) {
                Err(error) => runner_fault(
                    join2("failed to bind distributed tensor fragment: ", error.0.as_str()),
                ),
                Ok(binding) => Ok(binding.with_access(VulkanResidentKernelBufferAccess::Read)),
            }
        },
    }
}

fn bind_partition(
    inputs: &VulkanDistributedRunnerInputs,
    dispatch: &VulkanDistributedDispatchPlan,
    device_id: &String,
    partition: &VulkanDistributedSelectedResourcePartitionPlan,
) -> (outcome: Result<
    (VulkanResidentKernelBufferBinding, VulkanResidentKernelBufferBinding),
    VulkanDistributedDispatchRunnerError,
>)
    ensures
        forall|bindings: Seq<VulkanResidentKernelBufferBinding>| #[trigger]
            partition_binding_step(inputs.deep_view(), dispatch.deep_view(), device_id@)(
                bindings,
                partition.deep_view(),
            ) == match outcome {
                Ok(both) => Ok::<Seq<VulkanResidentKernelBufferBinding>, Seq<char>>(
                    bindings.push(both.0).push(both.1),
                ),
                Err(error) => Err::<Seq<VulkanResidentKernelBufferBinding>, Seq<char>>(error.0@),
            },
{
    let resources = match inputs.dynamic_resource_buffers.get(device_id) {
        None => {
            return runner_fault(
                join4(
                    "distributed dispatch ",
                    name_dispatch(dispatch).as_str(),
                    " has no dynamic resource buffers on ",
                    quoted(device_id.as_str()).as_str(),
                ),
            );
        },
        Some(resources) => resources,
    };
    let key: (String, (String, String)) = (
        dispatch.component_id.clone(),
        (dispatch.node_id.clone(), partition.selection_signal.clone()),
    );
    let slots: VulkanResidentBuffer = match resources.parameter_slots.get(&key) {
        None => {
            return runner_fault(
                join6(
                    "distributed dispatch ",
                    name_dispatch(dispatch).as_str(),
                    " has no parameter slots for selector ",
                    quoted(partition.selector_id.as_str()).as_str(),
                    " on ",
                    quoted(device_id.as_str()).as_str(),
                ),
            );
        },
        Some(slots) => *slots,
    };
    if partition.address_table_binding > u32::MAX as usize {
        return runner_fault("distributed dynamic address-table binding exceeds u32".to_owned());
    }
    if partition.parameter_slots_binding > u32::MAX as usize {
        return runner_fault("distributed dynamic parameter-slot binding exceeds u32".to_owned());
    }
    let table = resources.address_table;
    Ok(
        (
            bind(
                partition.address_table_binding,
                table,
                0,
                table.byte_capacity,
                VulkanResidentKernelBufferAccess::Read,
            ),
            bind(
                partition.parameter_slots_binding,
                slots,
                0,
                slots.byte_capacity,
                VulkanResidentKernelBufferAccess::Read,
            ),
        ),
    )
}

fn bind_parameters(
    inputs: &VulkanDistributedRunnerInputs,
    dispatch: &VulkanDistributedDispatchPlan,
    shard: &VulkanDistributedDispatchShard,
    bindings: &mut Vec<VulkanResidentKernelBufferBinding>,
) -> (outcome: Result<(), VulkanDistributedDispatchRunnerError>)
    ensures
        ({
            let expected = fold_from(
                shard.deep_view().parameters,
                0,
                old(bindings).deep_view(),
                parameter_binding_step(
                    inputs.deep_view(),
                    dispatch.deep_view(),
                    shard.device_id@,
                ),
            );
            match outcome {
                Ok(_) => expected == Ok::<Seq<VulkanResidentKernelBufferBinding>, Seq<char>>(
                    final(bindings).deep_view(),
                ),
                Err(error) => expected == Err::<
                    Seq<VulkanResidentKernelBufferBinding>,
                    Seq<char>,
                >(error.0@),
            }
        }),
{
    let ghost all = shard.deep_view().parameters;
    let ghost before = bindings.deep_view();
    let ghost step = parameter_binding_step(
        inputs.deep_view(),
        dispatch.deep_view(),
        shard.device_id@,
    );
    for index in 0..shard.parameters.len()
        invariant
            all == shard.parameters.deep_view(),
            before == old(bindings).deep_view(),
            step == parameter_binding_step(
                inputs.deep_view(),
                dispatch.deep_view(),
                shard.device_id@,
            ),
            fold_from(all, 0, before, step) == fold_from(
                all,
                index as nat,
                bindings.deep_view(),
                step,
            ),
    {
        assert(all[index as int] == shard.parameters@[index as int].deep_view());
        let ghost earlier = bindings.deep_view();
        let bound_parameter = bind_parameter(
            inputs,
            dispatch,
            &shard.device_id,
            &shard.parameters[index],
        );
        assert(step(earlier, all[index as int]) == match bound_parameter {
            Ok(binding) => Ok::<Seq<VulkanResidentKernelBufferBinding>, Seq<char>>(
                earlier.push(binding),
            ),
            Err(error) => Err::<Seq<VulkanResidentKernelBufferBinding>, Seq<char>>(error.0@),
        });
        match bound_parameter {
            Err(error) => {
                return Err(error);
            },
            Ok(binding) => {
                append(bindings, binding);
            },
        }
    }
    Ok(())
}

fn bind_partitions(
    inputs: &VulkanDistributedRunnerInputs,
    dispatch: &VulkanDistributedDispatchPlan,
    shard: &VulkanDistributedDispatchShard,
    bindings: &mut Vec<VulkanResidentKernelBufferBinding>,
) -> (outcome: Result<(), VulkanDistributedDispatchRunnerError>)
    ensures
        ({
            let expected = fold_from(
                dispatch.deep_view().selected_resource_partitions,
                0,
                old(bindings).deep_view(),
                partition_binding_step(
                    inputs.deep_view(),
                    dispatch.deep_view(),
                    shard.device_id@,
                ),
            );
            match outcome {
                Ok(_) => expected == Ok::<Seq<VulkanResidentKernelBufferBinding>, Seq<char>>(
                    final(bindings).deep_view(),
                ),
                Err(error) => expected == Err::<
                    Seq<VulkanResidentKernelBufferBinding>,
                    Seq<char>,
                >(error.0@),
            }
        }),
{
    let ghost all = dispatch.deep_view().selected_resource_partitions;
    let ghost before = bindings.deep_view();
    let ghost step = partition_binding_step(
        inputs.deep_view(),
        dispatch.deep_view(),
        shard.device_id@,
    );
    for index in 0..dispatch.selected_resource_partitions.len()
        invariant
            all == dispatch.selected_resource_partitions.deep_view(),
            before == old(bindings).deep_view(),
            step == partition_binding_step(
                inputs.deep_view(),
                dispatch.deep_view(),
                shard.device_id@,
            ),
            fold_from(all, 0, before, step) == fold_from(
                all,
                index as nat,
                bindings.deep_view(),
                step,
            ),
    {
        assert(all[index as int]
            == dispatch.selected_resource_partitions@[index as int].deep_view());
        let ghost earlier = bindings.deep_view();
        let bound_partition = bind_partition(
            inputs,
            dispatch,
            &shard.device_id,
            &dispatch.selected_resource_partitions[index],
        );
        assert(step(earlier, all[index as int]) == match bound_partition {
            Ok(both) => Ok::<Seq<VulkanResidentKernelBufferBinding>, Seq<char>>(
                earlier.push(both.0).push(both.1),
            ),
            Err(error) => Err::<Seq<VulkanResidentKernelBufferBinding>, Seq<char>>(error.0@),
        });
        match bound_partition {
            Err(error) => {
                return Err(error);
            },
            Ok(both) => {
                append(bindings, both.0);
                append(bindings, both.1);
            },
        }
    }
    Ok(())
}

/// Binds the buffers of the kernel of a shard.
pub fn bind_shard(
    inputs: &VulkanDistributedRunnerInputs,
    dispatch: &VulkanDistributedDispatchPlan,
    shard: &VulkanDistributedDispatchShard,
    shard_index: usize,
    private_input: Option<VulkanResidentBuffer>,
    private_output: Option<VulkanResidentBuffer>,
) -> (outcome: Result<
    Vec<VulkanResidentKernelBufferBinding>,
    VulkanDistributedDispatchRunnerError,
>)
    ensures
        runner_agrees(
            outcome,
            shard_bindings(
                inputs.deep_view(),
                dispatch.deep_view(),
                shard.deep_view(),
                shard_index,
                private_input,
                private_output,
            ),
        ),
{
    let input = match find_input_source(inputs, dispatch, shard, private_input) {
        Err(error) => {
            return Err(error);
        },
        Ok(input) => input,
    };
    let output = match find_output_target(inputs, dispatch, shard, shard_index, private_output) {
        Err(error) => {
            return Err(error);
        },
        Ok(output) => output,
    };
    if dispatch.input_activation.binding > u32::MAX as usize {
        return runner_fault("distributed primary input binding exceeds u32".to_owned());
    }
    if shard.auxiliary_input_ranges.len() != dispatch.auxiliary_input_activations.len() {
        return runner_fault(
            join8(
                "distributed dispatch ",
                name_dispatch(dispatch).as_str(),
                " has ",
                decimal(shard.auxiliary_input_ranges.len()).as_str(),
                " auxiliary ranges for ",
                decimal(dispatch.auxiliary_input_activations.len()).as_str(),
                " auxiliary inputs on ",
                quoted(shard.device_id.as_str()).as_str(),
            ),
        );
    }
    let mut bindings: Vec<VulkanResidentKernelBufferBinding> = Vec::new();
    append(
        &mut bindings,
        bind(
            dispatch.input_activation.binding,
            input.0,
            input.1,
            shard.input_range.byte_count,
            VulkanResidentKernelBufferAccess::Read,
        ),
    );
    assert(bindings.deep_view() =~= seq![
        bound(
            dispatch.input_activation.binding,
            input.0,
            input.1,
            shard.input_range.byte_count,
            VulkanResidentKernelBufferAccess::Read,
        ),
    ]);
    match bind_auxiliary_inputs(inputs, dispatch, shard, &mut bindings) {
        Err(error) => {
            return Err(error);
        },
        Ok(_) => {},
    }
    if dispatch.output_activation.binding > u32::MAX as usize {
        return runner_fault("distributed output binding exceeds u32".to_owned());
    }
    append(
        &mut bindings,
        bind(
            dispatch.output_activation.binding,
            output.0,
            output.1.0,
            output.1.1,
            VulkanResidentKernelBufferAccess::Write,
        ),
    );
    match bind_parameters(inputs, dispatch, shard, &mut bindings) {
        Err(error) => {
            return Err(error);
        },
        Ok(_) => {},
    }
    match bind_partitions(inputs, dispatch, shard, &mut bindings) {
        Err(error) => {
            return Err(error);
        },
        Ok(_) => {},
    }
    Ok(bindings)
}

/// The name of a distribution.
pub open spec fn distribution_text(distribution: VulkanDistributedDispatchDistribution) -> Seq<
    char,
> {
    match distribution {
        VulkanDistributedDispatchDistribution::OutputRows => "OutputRows"@,
        VulkanDistributedDispatchDistribution::InputColumns => "InputColumns"@,
        VulkanDistributedDispatchDistribution::ExpertRange => "ExpertRange"@,
    }
}

fn name_distribution(distribution: VulkanDistributedDispatchDistribution) -> (name: &'static str)
    ensures
        name@ == distribution_text(distribution),
{
    match distribution {
        VulkanDistributedDispatchDistribution::OutputRows => "OutputRows",
        VulkanDistributedDispatchDistribution::InputColumns => "InputColumns",
        VulkanDistributedDispatchDistribution::ExpertRange => "ExpertRange",
    }
}

/// The label of the kernel of a shard.
pub open spec fn kernel_label(
    dispatch: VulkanDistributedDispatchPlanModel,
    shard: VulkanDistributedDispatchShardModel,
) -> Seq<char> {
    "component="@ + dispatch.component_id + " node="@ + dispatch.node_id + " distributed=device:"@
        + shard.device_id + " rows="@ + decimal_text(shard.row_start as nat) + ".."@
        + decimal_text((shard.row_start + shard.row_count) as nat) + " base_z="@ + decimal_text(
        shard.base_workgroup_z as nat,
    ) + " distribution="@ + distribution_text(dispatch.distribution)
}

/// The kernel of a shard, or the text of the error.
pub open spec fn shard_kernel(
    inputs: VulkanDistributedRunnerInputsModel,
    dispatch: VulkanDistributedDispatchPlanModel,
    shard: VulkanDistributedDispatchShardModel,
    shard_index: usize,
    local_size_x: u32,
    private_input: Option<VulkanResidentBuffer>,
    private_output: Option<VulkanResidentBuffer>,
) -> Result<VulkanDistributedKernelRequestModel, Seq<char>> {
    match shard_bindings(inputs, dispatch, shard, shard_index, private_input, private_output) {
        Err(message) => Err(message),
        Ok(bindings) => match shard_constants(dispatch, shard) {
            Err(message) => Err(message),
            Ok(constants) => Ok(
                VulkanDistributedKernelRequestModel {
                    device_id: shard.device_id,
                    artifact_id: dispatch.physical_artifact_id,
                    bindings,
                    workgroup_count_x: shard.workgroup_count_x,
                    local_size_x,
                    push_constant_byte_count: constants.len() as u32,
                    label: kernel_label(dispatch, shard),
                },
            ),
        },
    }
}

/// Resolves the kernel that the device of a shard is asked to prepare.
pub fn create_distributed_resident_dispatch(
    inputs: &VulkanDistributedRunnerInputs,
    planned_dispatch: &VulkanDistributedDispatchPlan,
    planned_shard: &VulkanDistributedDispatchShard,
    shard_index: usize,
    local_size_x: u32,
    private_input: Option<VulkanResidentBuffer>,
    private_output: Option<VulkanResidentBuffer>,
) -> (outcome: Result<VulkanDistributedKernelRequest, VulkanDistributedDispatchRunnerError>)
    requires
        planned_shard.row_start + planned_shard.row_count <= usize::MAX,
    ensures
        runner_agrees(
            outcome,
            shard_kernel(
                inputs.deep_view(),
                planned_dispatch.deep_view(),
                planned_shard.deep_view(),
                shard_index,
                local_size_x,
                private_input,
                private_output,
            ),
        ),
{
    let bindings = match bind_shard(
        inputs,
        planned_dispatch,
        planned_shard,
        shard_index,
        private_input,
        private_output,
    ) {
        Err(error) => {
            return Err(error);
        },
        Ok(bindings) => bindings,
    };
    let constants = match distributed_shard_push_constants(planned_dispatch, planned_shard) {
        Err(error) => {
            return Err(error);
        },
        Ok(constants) => constants,
    };
    let first = join12(
        "component=",
        planned_dispatch.component_id.as_str(),
        " node=",
        planned_dispatch.node_id.as_str(),
        " distributed=device:",
        planned_shard.device_id.as_str(),
        " rows=",
        decimal(planned_shard.row_start).as_str(),
        "..",
        decimal(planned_shard.row_start + planned_shard.row_count).as_str(),
        " base_z=",
        decimal_u64(planned_shard.base_workgroup_z as u64).as_str(),
    );
    let label = join3(
        first.as_str(),
        " distribution=",
        name_distribution(planned_dispatch.distribution),
    );
    assert(constants.deep_view().len() == constants.len());
    assert(constants.len() == 0 || constants.len() == 8);
    Ok(
        VulkanDistributedKernelRequest {
            device_id: planned_shard.device_id.clone(),
            artifact_id: planned_dispatch.physical_artifact_id.clone(),
            bindings,
            workgroup_count_x: planned_shard.workgroup_count_x,
            local_size_x,
            push_constant_byte_count: constants.len() as u32,
            label,
        },
    )
}

} // verus!
