//! Laws of how one dispatch is split over devices.
use vstd::arithmetic::div_mod::{lemma_fundamental_div_mod, lemma_fundamental_div_mod_converse};
use vstd::prelude::*;

use crate::arithmetic::{
    divides, gcd, law_gcd_is_the_greatest_common_divisor, law_lcm_is_a_common_multiple, lcm,
    lemma_gcd_positive, narrowed,
};
use crate::contract_planning::{
    fragment_step, input_at, input_range, input_ranges_from, input_step, parameter_slice,
    planned_dispatch, planned_reduction, planned_shard, planned_shards_from, planned_signals,
    range_ownership, shard_devices, shard_geometry, slice_step, workgroup_cut,
    ContractParameterSliceModel, PlannedSignalsModel, ShardGeometryModel,
};
use crate::contract_selection::owner_requirements;
use crate::contracts::{
    ContractInput, ContractOutputModel, ContractReductionModel, InputDistribution,
    ParameterPartitionModel, PhysicalExecutionContractModel, ReductionFinalizationModel,
};
use crate::dispatch_shards::{
    VulkanDistributedActivationRange, VulkanDistributedDispatchShardModel,
    VulkanDistributedParameterFragmentModel,
};
use crate::execution_plans::{
    VulkanDistributedActivationSlotModel, VulkanDistributedDispatchPlanModel,
    VulkanDistributedReductionPlanModel, VulkanDistributedSelectedResourcePartitionPlanModel,
};
use crate::planning::resolved_activation;
use crate::planning_laws::{law_planned_shards_tile_the_rows, shards_tile};
use crate::prepared::{
    CompiledResourceResidencyContractModel, ComponentEdgePlacementModel, TensorIndexModel,
    VulkanPhysicalKernelArtifactModel, VulkanPreparedDispatchModel,
};
use crate::row_distribution::{
    law_row_shards_hold_whole_workgroups, law_row_shards_tile_the_rows, row_shards,
};
use crate::selected_resources::resolved_partitions;
use crate::sequences::{fold_from, index_from};

verus! {

/// A dispatch that is to be split over devices, with everything that the split depends on.
pub struct DispatchTaskModel {
    pub owner_device_id: Seq<char>,
    pub dispatch: VulkanPreparedDispatchModel,
    pub tensors: TensorIndexModel,
    pub device_ids: Seq<Seq<char>>,
    pub edges: Seq<ComponentEdgePlacementModel>,
    pub artifact: VulkanPhysicalKernelArtifactModel,
    pub contract: PhysicalExecutionContractModel,
    pub offset_alignment: usize,
    pub resource_context: Option<(Seq<char>, CompiledResourceResidencyContractModel)>,
}

impl DispatchTaskModel {
    /// The dispatch is split as the plan says.
    pub open spec fn gives(self, plan: VulkanDistributedDispatchPlanModel) -> bool {
        planned_dispatch(
            self.owner_device_id,
            self.dispatch,
            self.tensors,
            self.device_ids,
            self.edges,
            self.artifact,
            self.contract,
            self.offset_alignment,
            self.resource_context,
        ) == Ok::<Option<VulkanDistributedDispatchPlanModel>, Seq<char>>(Some(plan))
    }

    /// The extent that is cut into shards.
    pub open spec fn extent(self) -> usize {
        narrowed(self.contract.partition_extent->0.elements)->0
    }

    spec fn signals(self) -> PlannedSignalsModel {
        planned_signals(
            self.dispatch,
            self.edges,
            self.contract,
            self.offset_alignment,
            self.extent(),
            narrowed(self.contract.partition_extent->0.alignment_elements)->0,
        )->Ok_0
    }

    spec fn partitions(self) -> Seq<VulkanDistributedSelectedResourcePartitionPlanModel> {
        resolved_partitions(self.dispatch, self.contract, self.resource_context)->Ok_0
    }

    spec fn sliced(self) -> (usize, Seq<ContractParameterSliceModel>) {
        fold_from(
            self.contract.parameter_partitions,
            0,
            (self.signals().alignment, Seq::empty()),
            slice_step(self.dispatch, self.tensors, self.extent()),
        )->Ok_0
    }

    spec fn cut(self) -> (usize, usize) {
        workgroup_cut(
            self.dispatch,
            self.artifact,
            self.contract.execution_form,
            self.extent(),
            self.sliced().0,
        )->Ok_0
    }

    spec fn rows(self) -> Seq<(usize, usize)> {
        row_shards(
            self.extent(),
            self.device_ids.len() as usize,
            self.cut().0,
            self.cut().1,
        )->Ok_0
    }

    spec fn geometry(self) -> ShardGeometryModel {
        shard_geometry(
            self.artifact,
            self.contract,
            self.contract.partition_launch->0.origin,
            self.signals(),
            self.sliced().1,
            self.partitions(),
            self.extent(),
            self.cut().0,
        )
    }

    spec fn planned(self) -> (usize, Seq<VulkanDistributedDispatchShardModel>) {
        planned_shards_from(
            self.dispatch,
            self.geometry(),
            shard_devices(self.owner_device_id, self.device_ids),
            self.rows(),
            0,
            0,
            Seq::empty(),
        )->Ok_0
    }
}

/// The shard is cut out of a geometry for a device.
spec fn is_cut(
    dispatch: VulkanPreparedDispatchModel,
    geometry: ShardGeometryModel,
    device_id: Seq<char>,
    rows: (usize, usize),
    shard: VulkanDistributedDispatchShardModel,
) -> bool {
    exists|before: usize|
        (#[trigger] planned_shard(dispatch, geometry, device_id, rows.0, rows.1, before)) is Ok
            && planned_shard(
            dispatch,
            geometry,
            device_id,
            rows.0,
            rows.1,
            before,
        )->Ok_0.1 == shard
}

proof fn lemma_shards_are_cut(
    dispatch: VulkanPreparedDispatchModel,
    geometry: ShardGeometryModel,
    devices: Seq<Seq<char>>,
    rows: Seq<(usize, usize)>,
    index: nat,
    bytes: usize,
    planned: Seq<VulkanDistributedDispatchShardModel>,
)
    requires
        index <= rows.len(),
        index <= devices.len(),
        planned.len() == index,
        planned_shards_from(dispatch, geometry, devices, rows, index, bytes, planned) is Ok,
    ensures
        ({
            let shards = planned_shards_from(
                dispatch,
                geometry,
                devices,
                rows,
                index,
                bytes,
                planned,
            )->Ok_0.1;
            &&& index <= shards.len() <= rows.len()
            &&& shards.len() <= devices.len()
            &&& shards.take(index as int) == planned
            &&& forall|i: int|
                index <= i < shards.len() ==> is_cut(
                    dispatch,
                    geometry,
                    devices[i],
                    rows[i],
                    #[trigger] shards[i],
                )
        }),
    decreases rows.len() - index,
{
    if index < rows.len() && index < devices.len() {
        let (next, shard) = planned_shard(
            dispatch,
            geometry,
            devices[index as int],
            rows[index as int].0,
            rows[index as int].1,
            bytes,
        )->Ok_0;
        let grown = planned.push(shard);
        assert(is_cut(dispatch, geometry, devices[index as int], rows[index as int], shard));
        lemma_shards_are_cut(dispatch, geometry, devices, rows, index + 1, next, grown);
        let shards = planned_shards_from(
            dispatch,
            geometry,
            devices,
            rows,
            index + 1,
            next,
            grown,
        )->Ok_0.1;
        assert(shards.take(index as int) =~= shards.take(index as int + 1).take(index as int));
        assert(grown.take(index as int) =~= planned);
        assert(shards[index as int] == shards.take(index as int + 1)[index as int]);
    } else {
        assert(planned.take(index as int) =~= planned);
    }
}

proof fn lemma_task(task: DispatchTaskModel, plan: VulkanDistributedDispatchPlanModel)
    requires
        task.gives(plan),
    ensures
        task.contract.partition_extent is Some,
        task.contract.partition_launch is Some,
        task.extent() == task.contract.partition_extent->0.elements,
        planned_signals(
            task.dispatch,
            task.edges,
            task.contract,
            task.offset_alignment,
            task.extent(),
            narrowed(task.contract.partition_extent->0.alignment_elements)->0,
        ) == Ok::<PlannedSignalsModel, Seq<char>>(task.signals()),
        narrowed(task.contract.partition_extent->0.alignment_elements) is Some,
        fold_from(
            task.contract.parameter_partitions,
            0,
            (task.signals().alignment, Seq::empty()),
            slice_step(task.dispatch, task.tensors, task.extent()),
        ) is Ok,
        workgroup_cut(
            task.dispatch,
            task.artifact,
            task.contract.execution_form,
            task.extent(),
            task.sliced().0,
        ) is Ok,
        row_shards(
            task.extent(),
            task.device_ids.len() as usize,
            task.cut().0,
            task.cut().1,
        ) is Ok,
        task.rows().len() >= 2,
        plan.shards == task.planned().1,
        plan.output_rows == task.extent(),
        plan.row_alignment == task.cut().1,
        plan.reduction == task.signals().reduction,
        plan.output_collection == task.contract.outputs[0].collection,
        task.contract.outputs.len() == 1,
        plan.input_activation == task.signals().inputs[0],
        plan.auxiliary_input_activations == task.signals().inputs.drop_first(),
        plan.selected_resource_partitions == task.partitions(),
        plan.shards.len() <= task.rows().len(),
        plan.shards.len() <= shard_devices(task.owner_device_id, task.device_ids).len(),
        forall|i: int|
            0 <= i < plan.shards.len() ==> is_cut(
                task.dispatch,
                task.geometry(),
                shard_devices(task.owner_device_id, task.device_ids)[i],
                task.rows()[i],
                #[trigger] plan.shards[i],
            ),
{
    lemma_shards_are_cut(
        task.dispatch,
        task.geometry(),
        shard_devices(task.owner_device_id, task.device_ids),
        task.rows(),
        0,
        0,
        Seq::empty(),
    );
}

/// The plan of a dispatch carries the names of what it was made from, and whatever the
/// contract declares of it.
pub proof fn law_plans_name_what_they_are_made_from(
    task: DispatchTaskModel,
    plan: VulkanDistributedDispatchPlanModel,
)
    requires
        task.gives(plan),
    ensures
        plan.owner_device_id == task.owner_device_id,
        plan.dispatch_index == task.dispatch.dispatch_index,
        plan.component_id == task.dispatch.component_id,
        plan.node_id == task.dispatch.node_id,
        plan.physical_artifact_id == task.artifact.artifact_id,
        plan.physical_execution_contract_id == task.contract.contract_id,
        plan.implementation_digest == task.contract.implementation_digest,
        plan.execution_strategy == task.contract.strategy,
        plan.equivalence == task.contract.equivalence,
        plan.contract_member_node_ids == task.contract.member_node_ids,
        plan.local_intermediates == task.contract.local_intermediates,
        plan.has_lazy_resource_requirements <==> task.contract.resource_kinds.contains(
            crate::contracts::ResourceKind::LazyResource,
        ),
        plan.output_rows == task.contract.partition_extent->0.elements,
        plan.output_collection == task.contract.outputs[0].collection,
        plan.input_distribution == task.contract.inputs[0].distribution,
        plan.auxiliary_input_distributions.len() + 1 == task.contract.inputs.len(),
        forall|j: int|
            1 <= j < task.contract.inputs.len() ==> plan.auxiliary_input_distributions[j - 1] == (
            #[trigger] task.contract.inputs[j]).distribution,
        plan.input_byte_capacity == plan.input_activation.signal_byte_capacity,
        plan.output_byte_capacity == plan.output_activation.signal_byte_capacity,
        task.contract.execution_form is PartitionedInputPartialOutput <==> plan.distribution
            is InputColumns,
        task.contract.execution_form is WholeExpertOwnership <==> plan.distribution is ExpertRange,
        owner_requirements(task.owner_device_id, task.dispatch) == Ok::<_, Seq<char>>(
            plan.owner_residency_requirements,
        ),
{
    lemma_task(task, plan);
    lemma_inputs(task, plan);
}

/// The input of a plan at a place: the primary input, then the auxiliary ones.
pub open spec fn input_of(
    plan: VulkanDistributedDispatchPlanModel,
    place: int,
) -> VulkanDistributedActivationSlotModel {
    if place == 0 {
        plan.input_activation
    } else {
        plan.auxiliary_input_activations[place - 1]
    }
}

/// How the input of a plan at a place is distributed.
pub open spec fn distribution_of(
    plan: VulkanDistributedDispatchPlanModel,
    place: int,
) -> InputDistribution {
    if place == 0 {
        plan.input_distribution
    } else {
        plan.auxiliary_input_distributions[place - 1]
    }
}

/// What a shard reads of the input at a place.
pub open spec fn read_of(
    shard: VulkanDistributedDispatchShardModel,
    place: int,
) -> VulkanDistributedActivationRange {
    if place == 0 {
        shard.input_range
    } else {
        shard.auxiliary_input_ranges[place - 1]
    }
}

/// What a shard writes of the output.
pub open spec fn write_of(
    shard: VulkanDistributedDispatchShardModel,
) -> VulkanDistributedActivationRange {
    VulkanDistributedActivationRange {
        byte_offset: shard.output_byte_offset,
        byte_count: shard.output_byte_count,
    }
}

proof fn lemma_divides_chain(first: nat, second: nat, third: nat)
    requires
        divides(first, second),
        divides(second, third),
    ensures
        divides(first, third),
{
    let a = choose|factor: nat| second == #[trigger] (first * factor);
    let b = choose|factor: nat| third == #[trigger] (second * factor);
    assert(third == first * (a * b)) by (nonlinear_arith)
        requires
            second == first * a,
            third == second * b,
    ;
}

proof fn lemma_divides_product(divisor: nat, number: nat, times: nat, larger: nat)
    requires
        divides(divisor, number * times),
        divides(number, larger),
    ensures
        divides(divisor, larger * times),
{
    let a = choose|factor: nat| number * times == #[trigger] (divisor * factor);
    let b = choose|factor: nat| larger == #[trigger] (number * factor);
    assert(larger * times == divisor * (a * b)) by (nonlinear_arith)
        requires
            number * times == divisor * a,
            larger == number * b,
    ;
}

proof fn lemma_divides_itself(number: nat)
    ensures
        divides(number, number),
{
    assert(number == number * 1nat) by (nonlinear_arith);
}

proof fn lemma_divides_lcm(left: nat, right: nat)
    ensures
        divides(left, lcm(left, right)),
        divides(right, lcm(left, right)),
{
    if left > 0 || right > 0 {
        law_lcm_is_a_common_multiple(left, right);
    } else {
        assert(lcm(left, right) == left * (right / gcd(left, right)));
        assert(lcm(left, right) == 0) by (nonlinear_arith)
            requires
                lcm(left, right) == left * (right / gcd(left, right)),
                left == 0,
        ;
        assert(0nat == 0nat * 0nat);
    }
}

/// Elements that are aligned together start at aligned bytes.
proof fn lemma_aligned_elements(offset_alignment: nat, bytes: nat, alignment: nat)
    requires
        offset_alignment > 0,
    ensures
        ({
            let elements = offset_alignment / gcd(offset_alignment, bytes);
            divides(offset_alignment, lcm(alignment, elements) * bytes)
        }),
{
    let common = gcd(offset_alignment, bytes);
    let elements = offset_alignment / common;
    law_gcd_is_the_greatest_common_divisor(offset_alignment, bytes, 1);
    lemma_gcd_positive(offset_alignment, bytes);
    let own = choose|factor: nat| offset_alignment == #[trigger] (common * factor);
    let other = choose|factor: nat| bytes == #[trigger] (common * factor);
    assert(offset_alignment == own as int * common as int + 0) by (nonlinear_arith)
        requires
            offset_alignment == common * own,
    ;
    lemma_fundamental_div_mod_converse(offset_alignment as int, common as int, own as int, 0);
    assert(elements == own);
    assert(elements * bytes == offset_alignment * other) by (nonlinear_arith)
        requires
            elements == own,
            offset_alignment == common * own,
            bytes == common * other,
    ;
    assert(divides(offset_alignment, elements * bytes));
    lemma_divides_lcm(alignment, elements);
    lemma_divides_product(offset_alignment, elements, bytes, lcm(alignment, elements));
}

/// The bytes at every multiple of the alignment of an activation that is cut into an
/// extent are aligned.
pub open spec fn keeps_offsets_aligned(
    alignment: nat,
    extent: nat,
    byte_capacity: nat,
    offset_alignment: nat,
) -> bool {
    divides(offset_alignment, alignment * (byte_capacity / extent))
}

proof fn lemma_inputs_found(
    dispatch: VulkanPreparedDispatchModel,
    extent: usize,
    offset_alignment: usize,
    edges: Seq<ComponentEdgePlacementModel>,
    inputs: Seq<ContractInput>,
    index: nat,
    alignment: usize,
    found: Seq<VulkanDistributedActivationSlotModel>,
)
    requires
        index <= inputs.len(),
        found.len() == index,
        fold_from(
            inputs,
            index,
            (alignment, found),
            input_step(dispatch, extent, offset_alignment, edges),
        ) is Ok,
    ensures
        ({
            let (reached, all) = fold_from(
                inputs,
                index,
                (alignment, found),
                input_step(dispatch, extent, offset_alignment, edges),
            )->Ok_0;
            &&& all.len() == inputs.len()
            &&& all.take(index as int) == found
            &&& divides(alignment as nat, reached as nat)
            &&& forall|j: int|
                index <= j < inputs.len() ==> !((#[trigger] inputs[j]).distribution is Local)
                    && narrowed(inputs[j].binding) is Some && resolved_activation(
                    dispatch,
                    narrowed(inputs[j].binding)->0,
                    1,
                    "contract input"@,
                    edges,
                    2,
                ) == Ok::<VulkanDistributedActivationSlotModel, Seq<char>>(all[j]) && (
                offset_alignment > 0 && inputs[j].distribution is Sharded ==> keeps_offsets_aligned(
                    reached as nat,
                    extent as nat,
                    all[j].signal_byte_capacity as nat,
                    offset_alignment as nat,
                ))
        }),
    decreases inputs.len() - index,
{
    let step = input_step(dispatch, extent, offset_alignment, edges);
    lemma_divides_itself(alignment as nat);
    if index < inputs.len() {
        let input = inputs[index as int];
        let (next, grown) = step((alignment, found), input)->Ok_0;
        let activation = resolved_activation(
            dispatch,
            narrowed(input.binding)->0,
            1,
            "contract input"@,
            edges,
            2,
        )->Ok_0;
        assert(grown == found.push(activation));
        lemma_inputs_found(
            dispatch,
            extent,
            offset_alignment,
            edges,
            inputs,
            index + 1,
            next,
            grown,
        );
        let (reached, all) = fold_from(inputs, index + 1, (next, grown), step)->Ok_0;
        assert(all.take(index as int) =~= all.take(index as int + 1).take(index as int));
        assert(grown.take(index as int) =~= found);
        assert(all[index as int] == all.take(index as int + 1)[index as int]);
        if input.distribution is Sharded {
            let bytes = activation.signal_byte_capacity as nat / extent as nat;
            let elements = offset_alignment as nat / gcd(offset_alignment as nat, bytes);
            lemma_divides_lcm(alignment as nat, elements);
            lemma_divides_chain(alignment as nat, next as nat, reached as nat);
            if offset_alignment > 0 {
                lemma_aligned_elements(offset_alignment as nat, bytes, alignment as nat);
                lemma_divides_product(
                    offset_alignment as nat,
                    next as nat,
                    bytes,
                    reached as nat,
                );
            }
        }
    } else {
        assert(found.take(index as int) =~= found);
    }
}

proof fn lemma_inputs(task: DispatchTaskModel, plan: VulkanDistributedDispatchPlanModel)
    requires
        task.gives(plan),
    ensures
        task.signals().inputs.len() == task.contract.inputs.len(),
        task.contract.inputs.len() > 0,
        forall|j: int|
            0 <= j < task.contract.inputs.len() ==> #[trigger] input_of(plan, j)
                == task.signals().inputs[j] && distribution_of(plan, j)
                == task.contract.inputs[j].distribution && !(
            task.contract.inputs[j].distribution is Local) && narrowed(
                task.contract.inputs[j].binding,
            ) is Some && resolved_activation(
                task.dispatch,
                narrowed(task.contract.inputs[j].binding)->0,
                1,
                "contract input"@,
                task.edges,
                2,
            ) == Ok::<VulkanDistributedActivationSlotModel, Seq<char>>(input_of(plan, j)),
        forall|j: int|
            0 <= j < task.contract.inputs.len() && task.offset_alignment > 0 && (
            #[trigger] task.contract.inputs[j]).distribution is Sharded ==> keeps_offsets_aligned(
                task.signals().alignment as nat,
                task.extent() as nat,
                input_of(plan, j).signal_byte_capacity as nat,
                task.offset_alignment as nat,
            ),
        divides(
            task.contract.partition_extent->0.alignment_elements as nat,
            task.signals().alignment as nat,
        ),
        narrowed(task.contract.outputs[0].binding) is Some,
        resolved_activation(
            task.dispatch,
            narrowed(task.contract.outputs[0].binding)->0,
            1,
            "contract output"@,
            task.edges,
            2,
        ) == Ok::<VulkanDistributedActivationSlotModel, Seq<char>>(plan.output_activation),
        task.offset_alignment > 0 && plan.output_collection is Concatenated
            ==> keeps_offsets_aligned(
            task.signals().alignment as nat,
            task.extent() as nat,
            plan.output_activation.signal_byte_capacity as nat,
            task.offset_alignment as nat,
        ),
        planned_reduction(
            task.dispatch,
            task.contract,
            task.contract.outputs[0],
            task.signals().inputs,
            plan.output_activation,
        ) == Ok::<Option<VulkanDistributedReductionPlanModel>, Seq<char>>(plan.reduction),
{
    lemma_task(task, plan);
    let first = narrowed(task.contract.partition_extent->0.alignment_elements)->0;
    lemma_inputs_found(
        task.dispatch,
        task.extent(),
        task.offset_alignment,
        task.edges,
        task.contract.inputs,
        0,
        first,
        Seq::empty(),
    );
    let (reached, all) = fold_from(
        task.contract.inputs,
        0,
        (first, Seq::<VulkanDistributedActivationSlotModel>::empty()),
        input_step(task.dispatch, task.extent(), task.offset_alignment, task.edges),
    )->Ok_0;
    let last = task.signals().alignment;
    let bytes = plan.output_activation.signal_byte_capacity as nat / task.extent() as nat;
    if plan.output_collection is Concatenated {
        let elements = task.offset_alignment as nat / gcd(task.offset_alignment as nat, bytes);
        lemma_divides_lcm(reached as nat, elements);
        if task.offset_alignment > 0 {
            lemma_aligned_elements(task.offset_alignment as nat, bytes, reached as nat);
        }
    } else {
        lemma_divides_itself(reached as nat);
    }
    lemma_divides_chain(first as nat, reached as nat, last as nat);
    assert forall|j: int|
        0 <= j < task.contract.inputs.len() && task.offset_alignment > 0 && (
        #[trigger] task.contract.inputs[j]).distribution is Sharded implies keeps_offsets_aligned(
        last as nat,
        task.extent() as nat,
        input_of(plan, j).signal_byte_capacity as nat,
        task.offset_alignment as nat,
    ) by {
        assert(input_of(plan, j) == all[j]);
        lemma_divides_product(
            task.offset_alignment as nat,
            reached as nat,
            all[j].signal_byte_capacity as nat / task.extent() as nat,
            last as nat,
        );
    }
    assert forall|j: int| 0 <= j < task.contract.inputs.len() implies #[trigger] input_of(plan, j)
        == all[j] && distribution_of(plan, j) == task.contract.inputs[j].distribution && !(
    task.contract.inputs[j].distribution is Local) by {
        assert(!(task.contract.inputs[j].distribution is Local));
    }
}

proof fn lemma_first_index<T>(items: Seq<T>, start: nat, condition: spec_fn(T) -> bool)
    requires
        index_from(items, start, condition) is Some,
    ensures
        start <= index_from(items, start, condition)->0 < items.len(),
        condition(items[index_from(items, start, condition)->0 as int]),
        forall|i: int|
            start <= i < index_from(items, start, condition)->0 ==> !condition(
                #[trigger] items[i],
            ),
    decreases items.len() - start,
{
    if start < items.len() && !condition(items[start as int]) {
        lemma_first_index(items, start + 1, condition);
    }
}

/// A plan joins the partial outputs of its shards exactly where the contract declares a
/// reduction: by the operation of the contract, over as many elements as the dimension that
/// the contract names, with four bytes for each in a partial output. Where the sum is
/// stored, it fills the output. Where a residual is added, it is the first input of the
/// contract that has the residual binding, and the residual and the output have two bytes
/// for each element.
pub proof fn law_reductions_follow_the_contract(
    task: DispatchTaskModel,
    plan: VulkanDistributedDispatchPlanModel,
)
    requires
        task.gives(plan),
        task.contract.inputs.len() <= usize::MAX,
    ensures
        plan.reduction is Some <==> task.contract.outputs[0].reduction is Some,
        plan.reduction is Some ==> task.contract.accumulation_format == "f32"@ && is_reduction_by(
            task.contract,
            task.contract.outputs[0].reduction->0,
            plan.reduction->0,
            plan.output_byte_capacity,
        ),
        plan.reduction is Some && plan.reduction->0.finalization is AddBf16ResidualToBf16
            ==> input_of(
            plan,
            plan.reduction->0.finalization->residual_input_index as int,
        ).signal_byte_capacity == 2 * plan.reduction->0.element_count,
{
    lemma_task(task, plan);
    lemma_inputs(task, plan);
    if plan.reduction is Some {
        lemma_reduction(
            task.dispatch,
            task.contract,
            task.contract.outputs[0],
            task.signals().inputs,
            plan.output_activation,
        );
        if plan.reduction->0.finalization is AddBf16ResidualToBf16 {
            let index = plan.reduction->0.finalization->residual_input_index as int;
            assert(input_of(plan, index) == task.signals().inputs[index]);
        }
    }
}

/// The reduction is what the contract declares: its operation, over as many elements as the
/// dimension that it names, with four bytes for each in a partial output. Where the sum is
/// stored, it fills the output. Where a residual is added, it is the first input of the
/// contract that has the residual binding, and the output has two bytes for each element.
pub open spec fn is_reduction_by(
    contract: PhysicalExecutionContractModel,
    declared: ContractReductionModel,
    reduction: VulkanDistributedReductionPlanModel,
    output_byte_capacity: usize,
) -> bool {
    &&& reduction.operation == declared.operation
    &&& contract.dimensions.contains_key(declared.dimension_name)
    &&& reduction.element_count == contract.dimensions[declared.dimension_name]
    &&& reduction.partial_byte_capacity == 4 * reduction.element_count
    &&& match declared.finalization {
        ReductionFinalizationModel::StoreF32 => {
            &&& reduction.finalization is StoreF32
            &&& output_byte_capacity == reduction.partial_byte_capacity
        },
        ReductionFinalizationModel::AddBf16ResidualToBf16 { residual_binding } => {
            &&& reduction.finalization is AddBf16ResidualToBf16
            &&& is_first_input_at(
                contract,
                residual_binding,
                reduction.finalization->residual_input_index as int,
            )
            &&& output_byte_capacity == 2 * reduction.element_count
        },
    }
}

/// The input at a place of a contract has a binding, and no earlier one has it.
pub open spec fn is_first_input_at(
    contract: PhysicalExecutionContractModel,
    binding: u64,
    place: int,
) -> bool {
    &&& 0 <= place < contract.inputs.len()
    &&& contract.inputs[place].binding == binding
    &&& forall|j: int| 0 <= j < place ==> (#[trigger] contract.inputs[j]).binding != binding
}

proof fn lemma_reduction(
    dispatch: VulkanPreparedDispatchModel,
    contract: PhysicalExecutionContractModel,
    output: ContractOutputModel,
    inputs: Seq<VulkanDistributedActivationSlotModel>,
    output_activation: VulkanDistributedActivationSlotModel,
)
    requires
        planned_reduction(dispatch, contract, output, inputs, output_activation) is Ok,
        planned_reduction(dispatch, contract, output, inputs, output_activation)->Ok_0 is Some,
        contract.inputs.len() <= usize::MAX,
    ensures
        output.reduction is Some,
        contract.accumulation_format == "f32"@,
        is_reduction_by(
            contract,
            output.reduction->0,
            planned_reduction(dispatch, contract, output, inputs, output_activation)->Ok_0->0,
            output_activation.signal_byte_capacity,
        ),
        ({
            let reduction = planned_reduction(
                dispatch,
                contract,
                output,
                inputs,
                output_activation,
            )->Ok_0->0;
            reduction.finalization is AddBf16ResidualToBf16
                ==> inputs[reduction.finalization->residual_input_index as int].signal_byte_capacity
                == 2 * reduction.element_count
        }),
{
    let declared = output.reduction->0;
    match declared.finalization {
        ReductionFinalizationModel::StoreF32 => {},
        ReductionFinalizationModel::AddBf16ResidualToBf16 { residual_binding } => {
            lemma_first_index(contract.inputs, 0, input_at(residual_binding));
            let index = index_from(contract.inputs, 0, input_at(residual_binding))->0 as int;
            assert forall|j: int| 0 <= j < index implies (
            #[trigger] contract.inputs[j]).binding != residual_binding by {
                assert(!input_at(residual_binding)(contract.inputs[j]));
            }
            assert(is_first_input_at(contract, residual_binding, index));
        },
    }
}

/// The bytes that the shards of a dispatch write: their partial outputs where these are
/// joined, else the output itself.
pub open spec fn written_capacity(plan: VulkanDistributedDispatchPlanModel) -> usize {
    match plan.reduction {
        Some(reduction) => reduction.partial_byte_capacity,
        None => plan.output_byte_capacity,
    }
}

proof fn lemma_ranges_found(
    dispatch: VulkanPreparedDispatchModel,
    geometry: ShardGeometryModel,
    start: usize,
    count: usize,
    index: nat,
    found: Seq<VulkanDistributedActivationRange>,
)
    requires
        index <= geometry.input_distributions.len(),
        found.len() == index,
        input_ranges_from(dispatch, geometry, start, count, index, found) is Ok,
    ensures
        ({
            let all = input_ranges_from(dispatch, geometry, start, count, index, found)->Ok_0;
            &&& all.len() == geometry.input_distributions.len()
            &&& all.take(index as int) == found
            &&& forall|j: int|
                index <= j < all.len() ==> input_range(
                    dispatch,
                    geometry.input_distributions[j],
                    geometry.input_byte_capacities[j],
                    geometry.logical_extent,
                    start,
                    count,
                ) == Ok::<VulkanDistributedActivationRange, Seq<char>>(#[trigger] all[j])
        }),
    decreases geometry.input_distributions.len() - index,
{
    if index < geometry.input_distributions.len() {
        let range = input_range(
            dispatch,
            geometry.input_distributions[index as int],
            geometry.input_byte_capacities[index as int],
            geometry.logical_extent,
            start,
            count,
        )->Ok_0;
        let grown = found.push(range);
        lemma_ranges_found(dispatch, geometry, start, count, index + 1, grown);
        let all = input_ranges_from(dispatch, geometry, start, count, index + 1, grown)->Ok_0;
        assert(all.take(index as int) =~= all.take(index as int + 1).take(index as int));
        assert(grown.take(index as int) =~= found);
        assert(all[index as int] == all.take(index as int + 1)[index as int]);
    } else {
        assert(found.take(index as int) =~= found);
    }
}

proof fn lemma_proportion(rows: int, extent: int, capacity: int, bytes: int)
    requires
        extent > 0,
        capacity % extent == 0,
        bytes == rows * (capacity / extent),
    ensures
        bytes * extent == rows * capacity,
{
    lemma_fundamental_div_mod(capacity, extent);
    assert(bytes * extent == rows * capacity) by (nonlinear_arith)
        requires
            capacity == extent * (capacity / extent),
            bytes == rows * (capacity / extent),
    ;
}

/// A range of bytes holds the rows of a shard where it is cut by rows, and otherwise all
/// bytes.
pub open spec fn takes_its_rows(
    shard: VulkanDistributedDispatchShardModel,
    rows: usize,
    capacity: usize,
    range: VulkanDistributedActivationRange,
    is_cut_by_rows: bool,
) -> bool {
    if is_cut_by_rows {
        &&& range.byte_offset * rows == shard.row_start * capacity
        &&& range.byte_count * rows == shard.row_count * capacity
    } else {
        range.byte_offset == 0 && range.byte_count == capacity
    }
}

/// What a shard reads and writes is in proportion to its rows. It reads the rows of every
/// sharded input and the whole of every other one; it writes its rows of a concatenated
/// output and the whole of every other one.
pub proof fn law_shards_read_and_write_their_rows(
    task: DispatchTaskModel,
    plan: VulkanDistributedDispatchPlanModel,
    shard: int,
)
    requires
        task.gives(plan),
        0 <= shard < plan.shards.len(),
    ensures
        takes_its_rows(
            plan.shards[shard],
            plan.output_rows,
            written_capacity(plan),
            write_of(plan.shards[shard]),
            plan.output_collection is Concatenated,
        ),
        plan.shards[shard].auxiliary_input_ranges.len() == plan.auxiliary_input_activations.len(),
        forall|j: int|
            0 <= j < task.contract.inputs.len() ==> takes_its_rows(
                plan.shards[shard],
                plan.output_rows,
                #[trigger] input_of(plan, j).signal_byte_capacity,
                read_of(plan.shards[shard], j),
                distribution_of(plan, j) is Sharded,
            ),
{
    lemma_task(task, plan);
    lemma_inputs(task, plan);
    let geometry = task.geometry();
    let rows = task.rows()[shard];
    let own = plan.shards[shard];
    let extent = task.extent() as int;
    assert(extent > 0);
    lemma_ranges_found(task.dispatch, geometry, rows.0, rows.1, 0, Seq::empty());
    if plan.output_collection is Concatenated {
        let capacity = written_capacity(plan) as int;
        lemma_proportion(own.row_start as int, extent, capacity, own.output_byte_offset as int);
        lemma_proportion(own.row_count as int, extent, capacity, own.output_byte_count as int);
    }
    let ranges = input_ranges_from(
        task.dispatch,
        geometry,
        rows.0,
        rows.1,
        0,
        Seq::empty(),
    )->Ok_0;
    assert forall|j: int| 0 <= j < task.contract.inputs.len() implies takes_its_rows(
        own,
        plan.output_rows,
        #[trigger] input_of(plan, j).signal_byte_capacity,
        read_of(own, j),
        distribution_of(plan, j) is Sharded,
    ) by {
        let range = read_of(own, j);
        assert(range == ranges[j]);
        let capacity = input_of(plan, j).signal_byte_capacity as int;
        assert(geometry.input_distributions[j] == distribution_of(plan, j));
        assert(geometry.input_byte_capacities[j] == capacity);
        if distribution_of(plan, j) is Sharded {
            lemma_proportion(own.row_start as int, extent, capacity, range.byte_offset as int);
            lemma_proportion(own.row_count as int, extent, capacity, range.byte_count as int);
        }
    }
}

/// A shard launches the workgroups of its own rows where the rows are cut, and otherwise
/// all of them; its origin is its first row where the kernel is told it, and otherwise zero.
pub proof fn law_shards_launch_their_rows(
    task: DispatchTaskModel,
    plan: VulkanDistributedDispatchPlanModel,
    shard: int,
)
    requires
        task.gives(plan),
        0 <= shard < plan.shards.len(),
    ensures
        plan.distribution is OutputRows ==> plan.shards[shard].workgroup_count_x
            * plan.output_rows == plan.shards[shard].row_count * task.artifact.workgroup_count_x,
        !(plan.distribution is OutputRows) ==> plan.shards[shard].workgroup_count_x
            == task.artifact.workgroup_count_x,
        task.contract.partition_launch->0.origin is PushConstantU32
            ==> plan.shards[shard].base_workgroup_z == plan.shards[shard].row_start,
        task.contract.partition_launch->0.origin is LocalZero
            ==> plan.shards[shard].base_workgroup_z == 0,
{
    lemma_task(task, plan);
    let own = plan.shards[shard];
    let extent = task.extent();
    if plan.distribution is OutputRows {
        law_row_shards_hold_whole_workgroups(
            extent,
            task.device_ids.len() as usize,
            task.cut().0,
            task.cut().1,
            shard,
        );
        let groups = task.artifact.workgroup_count_x as int;
        let elements = task.cut().0 as int;
        lemma_fundamental_div_mod(extent as int, groups);
        lemma_fundamental_div_mod(own.row_count as int, elements);
        assert(own.workgroup_count_x * extent == own.row_count * groups) by (nonlinear_arith)
            requires
                extent == groups * elements,
                own.row_count == elements * own.workgroup_count_x,
        ;
    }
}

proof fn lemma_bytes_meet(
    rows: int,
    capacity: int,
    left: (int, int),
    left_bytes: (int, int),
    right: int,
    right_bytes: int,
)
    requires
        rows > 0,
        left.0 + left.1 == right,
        left_bytes.0 * rows == left.0 * capacity,
        left_bytes.1 * rows == left.1 * capacity,
        right_bytes * rows == right * capacity,
    ensures
        left_bytes.0 + left_bytes.1 == right_bytes,
{
    assert(left_bytes.0 + left_bytes.1 == right_bytes) by (nonlinear_arith)
        requires
            rows > 0,
            left.0 + left.1 == right,
            left_bytes.0 * rows == left.0 * capacity,
            left_bytes.1 * rows == left.1 * capacity,
            right_bytes * rows == right * capacity,
    ;
}

/// The shards of a dispatch write every byte of a concatenated output once: the first
/// starts at byte zero, each starts where the one before it ends, and the last ends with
/// the output. They read every sharded input in the same way.
pub proof fn law_shards_tile_what_is_cut(
    task: DispatchTaskModel,
    plan: VulkanDistributedDispatchPlanModel,
)
    requires
        task.gives(plan),
        task.device_ids.no_duplicates(),
        task.device_ids.len() <= usize::MAX,
    ensures
        shards_tile(plan),
        plan.output_collection is Concatenated ==> {
            &&& plan.shards[0].output_byte_offset == 0
            &&& plan.shards.last().output_byte_offset + plan.shards.last().output_byte_count
                == written_capacity(plan)
            &&& forall|i: int|
                0 <= i < plan.shards.len() - 1 ==> (#[trigger] plan.shards[i]).output_byte_offset
                    + plan.shards[i].output_byte_count == plan.shards[i + 1].output_byte_offset
        },
        forall|j: int|
            0 <= j < task.contract.inputs.len() && #[trigger] distribution_of(plan, j) is Sharded
                ==> {
                &&& read_of(plan.shards[0], j).byte_offset == 0
                &&& read_of(plan.shards.last(), j).byte_offset + read_of(
                    plan.shards.last(),
                    j,
                ).byte_count == input_of(plan, j).signal_byte_capacity
                &&& forall|i: int|
                    0 <= i < plan.shards.len() - 1 ==> read_of(
                        #[trigger] plan.shards[i],
                        j,
                    ).byte_offset + read_of(plan.shards[i], j).byte_count == read_of(
                        plan.shards[i + 1],
                        j,
                    ).byte_offset
            },
{
    lemma_task(task, plan);
    law_planned_shards_tile_the_rows(
        task.owner_device_id,
        task.dispatch,
        task.tensors,
        task.device_ids,
        task.edges,
        task.artifact,
        task.contract,
        task.offset_alignment,
        task.resource_context,
    );
    let shards = plan.shards;
    let last = shards.len() - 1;
    let rows = plan.output_rows as int;
    law_shards_read_and_write_their_rows(task, plan, 0);
    law_shards_read_and_write_their_rows(task, plan, last);
    if plan.output_collection is Concatenated {
        let capacity = written_capacity(plan) as int;
        assert(shards[0].output_byte_offset == 0) by (nonlinear_arith)
            requires
                shards[0].output_byte_offset * rows == 0 * capacity,
                rows > 0,
        ;
        assert(capacity * rows == rows * capacity) by (nonlinear_arith);
        lemma_bytes_meet(
            rows,
            capacity,
            (shards[last].row_start as int, shards[last].row_count as int),
            (shards[last].output_byte_offset as int, shards[last].output_byte_count as int),
            rows,
            capacity,
        );
        assert forall|i: int| 0 <= i < shards.len() - 1 implies (
        #[trigger] shards[i]).output_byte_offset + shards[i].output_byte_count == shards[i
            + 1].output_byte_offset by {
            law_shards_read_and_write_their_rows(task, plan, i);
            law_shards_read_and_write_their_rows(task, plan, i + 1);
            lemma_bytes_meet(
                rows,
                capacity,
                (shards[i].row_start as int, shards[i].row_count as int),
                (shards[i].output_byte_offset as int, shards[i].output_byte_count as int),
                shards[i + 1].row_start as int,
                shards[i + 1].output_byte_offset as int,
            );
        }
    }
    assert forall|j: int|
        0 <= j < task.contract.inputs.len() && #[trigger] distribution_of(
            plan,
            j,
        ) is Sharded implies {
        &&& read_of(plan.shards[0], j).byte_offset == 0
        &&& read_of(plan.shards.last(), j).byte_offset + read_of(plan.shards.last(), j).byte_count
            == input_of(plan, j).signal_byte_capacity
        &&& forall|i: int|
            0 <= i < plan.shards.len() - 1 ==> read_of(
                #[trigger] plan.shards[i],
                j,
            ).byte_offset + read_of(plan.shards[i], j).byte_count == read_of(
                plan.shards[i + 1],
                j,
            ).byte_offset
    } by {
        let capacity = input_of(plan, j).signal_byte_capacity as int;
        let first = read_of(shards[0], j);
        let final_range = read_of(shards[last], j);
        assert(first.byte_offset == 0) by (nonlinear_arith)
            requires
                first.byte_offset * rows == 0 * capacity,
                rows > 0,
        ;
        assert(capacity * rows == rows * capacity) by (nonlinear_arith);
        lemma_bytes_meet(
            rows,
            capacity,
            (shards[last].row_start as int, shards[last].row_count as int),
            (final_range.byte_offset as int, final_range.byte_count as int),
            rows,
            capacity,
        );
        assert forall|i: int| 0 <= i < shards.len() - 1 implies read_of(
            #[trigger] shards[i],
            j,
        ).byte_offset + read_of(shards[i], j).byte_count == read_of(
            shards[i + 1],
            j,
        ).byte_offset by {
            law_shards_read_and_write_their_rows(task, plan, i);
            law_shards_read_and_write_their_rows(task, plan, i + 1);
            let own = read_of(shards[i], j);
            let next = read_of(shards[i + 1], j);
            lemma_bytes_meet(
                rows,
                capacity,
                (shards[i].row_start as int, shards[i].row_count as int),
                (own.byte_offset as int, own.byte_count as int),
                shards[i + 1].row_start as int,
                next.byte_offset as int,
            );
        }
    }
}

/// The rows of shards that launch their own workgroups launch all workgroups together: the
/// first shard launches from group zero on, each from where the one before it ends.
pub open spec fn launched_before(plan: VulkanDistributedDispatchPlanModel, shard: int) -> int
    decreases shard,
{
    if shard <= 0 {
        0
    } else {
        launched_before(plan, shard - 1) + plan.shards[shard - 1].workgroup_count_x
    }
}

/// Where the rows are cut, the workgroups of the shards are together those of the kernel.
pub proof fn law_shards_launch_every_workgroup(
    task: DispatchTaskModel,
    plan: VulkanDistributedDispatchPlanModel,
    shard: int,
)
    requires
        task.gives(plan),
        task.device_ids.no_duplicates(),
        task.device_ids.len() <= usize::MAX,
        plan.distribution is OutputRows,
        0 <= shard <= plan.shards.len(),
    ensures
        shard < plan.shards.len() ==> launched_before(plan, shard) * plan.output_rows
            == plan.shards[shard].row_start * task.artifact.workgroup_count_x,
        shard == plan.shards.len() ==> launched_before(plan, shard)
            == task.artifact.workgroup_count_x,
    decreases shard,
{
    lemma_task(task, plan);
    law_shards_tile_what_is_cut(task, plan);
    let rows = plan.output_rows as int;
    let groups = task.artifact.workgroup_count_x as int;
    if shard == 0 {
        assert(0 * rows == 0 * groups) by (nonlinear_arith);
    } else {
        law_shards_launch_every_workgroup(task, plan, shard - 1);
        law_shards_launch_their_rows(task, plan, shard - 1);
        let before = plan.shards[shard - 1];
        let end = before.row_start + before.row_count;
        assert(launched_before(plan, shard) * rows == end * groups) by (nonlinear_arith)
            requires
                launched_before(plan, shard) == launched_before(plan, shard - 1)
                    + before.workgroup_count_x,
                launched_before(plan, shard - 1) * rows == before.row_start * groups,
                before.workgroup_count_x * rows == before.row_count * groups,
                end == before.row_start + before.row_count,
        ;
        if shard == plan.shards.len() {
            assert(launched_before(plan, shard) == groups) by (nonlinear_arith)
                requires
                    launched_before(plan, shard) * rows == rows * groups,
                    rows > 0,
            ;
        } else {
            assert((#[trigger] plan.shards[shard - 1]).row_start + plan.shards[shard
                - 1].row_count == plan.shards[shard - 1 + 1].row_start);
        }
    }
}

proof fn lemma_slices_found(
    dispatch: VulkanPreparedDispatchModel,
    tensors: TensorIndexModel,
    extent: usize,
    partitions: Seq<ParameterPartitionModel>,
    index: nat,
    alignment: usize,
    found: Seq<ContractParameterSliceModel>,
)
    requires
        index <= partitions.len(),
        found.len() == index,
        extent > 0,
        fold_from(partitions, index, (alignment, found), slice_step(dispatch, tensors, extent))
            is Ok,
    ensures
        ({
            let (reached, all) = fold_from(
                partitions,
                index,
                (alignment, found),
                slice_step(dispatch, tensors, extent),
            )->Ok_0;
            &&& all.len() == partitions.len()
            &&& all.take(index as int) == found
            &&& divides(alignment as nat, reached as nat)
            &&& forall|k: int|
                index <= k < partitions.len() ==> is_slice_of(
                    #[trigger] partitions[k],
                    tensors,
                    extent,
                    all[k],
                    reached,
                )
        }),
    decreases partitions.len() - index,
{
    let step = slice_step(dispatch, tensors, extent);
    lemma_divides_itself(alignment as nat);
    if index < partitions.len() {
        let partition = partitions[index as int];
        let (next, slice) = parameter_slice(
            dispatch,
            tensors,
            extent,
            alignment,
            partition,
        )->Ok_0;
        let grown = found.push(slice);
        lemma_slices_found(dispatch, tensors, extent, partitions, index + 1, next, grown);
        let (reached, all) = fold_from(partitions, index + 1, (next, grown), step)->Ok_0;
        assert(all.take(index as int) =~= all.take(index as int + 1).take(index as int));
        assert(grown.take(index as int) =~= found);
        assert(all[index as int] == all.take(index as int + 1)[index as int]);
        let elements = slice.logical_elements_per_index as int;
        let physical = extent as int / elements;
        lemma_fundamental_div_mod(extent as int, elements);
        assert(physical > 0) by (nonlinear_arith)
            requires
                extent == elements * physical,
                extent > 0,
                elements > 0,
        ;
        let metadata = tensors.tensors[partition.resource];
        lemma_fundamental_div_mod(metadata.byte_count->0 as int, physical);
        assert(metadata.shape[0] * elements == extent) by (nonlinear_arith)
            requires
                extent == elements * physical,
                metadata.shape[0] == physical,
        ;
        assert(slice.bytes_per_physical_index * metadata.shape[0] == metadata.byte_count->0)
            by (nonlinear_arith)
            requires
                metadata.byte_count->0 == physical * slice.bytes_per_physical_index,
                metadata.shape[0] == physical,
        ;
        let row_alignment = (partition.alignment_elements as int * elements) as nat;
        let packed = metadata.layout == Some("vulkan_bf16_row_pair_u32"@);
        let own = if packed {
            lcm(row_alignment, (2 * elements) as nat)
        } else {
            row_alignment
        };
        lemma_divides_lcm(row_alignment, (2 * elements) as nat);
        lemma_divides_itself(row_alignment);
        lemma_divides_lcm(alignment as nat, own);
        lemma_divides_chain(alignment as nat, next as nat, reached as nat);
        lemma_divides_chain(row_alignment, own, next as nat);
        lemma_divides_chain(row_alignment, next as nat, reached as nat);
        if packed {
            lemma_divides_chain((2 * elements) as nat, own, next as nat);
            lemma_divides_chain((2 * elements) as nat, next as nat, reached as nat);
        }
        assert(is_slice_of(partition, tensors, extent, all[index as int], reached));
    } else {
        assert(found.take(index as int) =~= found);
    }
}

/// The slice stands for a partition of a parameter: it has its binding and its tensor,
/// whose rows are as many as the extent has runs of elements, and whose bytes are those of
/// its rows. The alignment keeps runs, aligned runs and packed pairs of rows whole.
pub open spec fn is_slice_of(
    partition: ParameterPartitionModel,
    tensors: TensorIndexModel,
    extent: usize,
    slice: ContractParameterSliceModel,
    alignment: usize,
) -> bool {
    let metadata = tensors.tensors[partition.resource];
    let elements = slice.logical_elements_per_index;
    &&& slice.binding == partition.binding
    &&& slice.tensor == partition.resource
    &&& tensors.tensors.contains_key(partition.resource)
    &&& partition.dimension == 0
    &&& !(partition.kind is BlockCyclic)
    &&& elements == partition.logical_elements_per_index
    &&& elements > 0
    &&& metadata.shape.len() > 0
    &&& metadata.shape[0] * elements == extent
    &&& metadata.byte_count is Some
    &&& metadata.byte_count->0 > 0
    &&& slice.bytes_per_physical_index * metadata.shape[0] == metadata.byte_count->0
    &&& divides((partition.alignment_elements * elements) as nat, alignment as nat)
    &&& metadata.layout == Some("vulkan_bf16_row_pair_u32"@) ==> divides(
        (2 * elements) as nat,
        alignment as nat,
    )
    &&& metadata.layout == Some("row_major"@) || metadata.layout == Some(
        "vulkan_bf16_row_pair_u32"@,
    )
}

proof fn lemma_fragments_found(
    dispatch: VulkanPreparedDispatchModel,
    start: usize,
    count: usize,
    slices: Seq<ContractParameterSliceModel>,
    index: nat,
    found: Seq<VulkanDistributedParameterFragmentModel>,
)
    requires
        index <= slices.len(),
        found.len() == index,
        forall|k: int|
            0 <= k < slices.len() ==> (#[trigger] slices[k]).logical_elements_per_index > 0,
        fold_from(slices, index, found, fragment_step(dispatch, start, count)) is Ok,
    ensures
        ({
            let all = fold_from(
                slices,
                index,
                found,
                fragment_step(dispatch, start, count),
            )->Ok_0;
            &&& all.len() == slices.len()
            &&& all.take(index as int) == found
            &&& forall|k: int|
                index <= k < slices.len() ==> (#[trigger] all[k]).binding == slices[k].binding
                    && all[k].tensor == slices[k].tensor && all[k].byte_offset
                    * slices[k].logical_elements_per_index == start
                    * slices[k].bytes_per_physical_index && all[k].byte_count
                    * slices[k].logical_elements_per_index == count
                    * slices[k].bytes_per_physical_index
        }),
    decreases slices.len() - index,
{
    let step = fragment_step(dispatch, start, count);
    if index < slices.len() {
        let slice = slices[index as int];
        let grown = step(found, slice)->Ok_0;
        let fragment = grown.last();
        assert(grown == found.push(fragment));
        lemma_fragments_found(dispatch, start, count, slices, index + 1, grown);
        let all = fold_from(slices, index + 1, grown, step)->Ok_0;
        assert(all.take(index as int) =~= all.take(index as int + 1).take(index as int));
        assert(grown.take(index as int) =~= found);
        assert(all[index as int] == all.take(index as int + 1)[index as int]);
        let elements = slice.logical_elements_per_index as int;
        let bytes = slice.bytes_per_physical_index as int;
        lemma_fundamental_div_mod(start as int, elements);
        lemma_fundamental_div_mod(count as int, elements);
        assert(fragment.byte_offset * elements == start * bytes) by (nonlinear_arith)
            requires
                fragment.byte_offset == (start as int / elements) * bytes,
                start == elements * (start as int / elements),
        ;
        assert(fragment.byte_count * elements == count * bytes) by (nonlinear_arith)
            requires
                fragment.byte_count == (count as int / elements) * bytes,
                count == elements * (count as int / elements),
        ;
    } else {
        assert(found.take(index as int) =~= found);
    }
}

/// The bytes of the tensor of a partition.
pub open spec fn partition_bytes(task: DispatchTaskModel, partition: int) -> int {
    task.tensors.tensors[task.contract.parameter_partitions[partition].resource].byte_count->0
        as int
}

/// The fragment is what a shard holds of a parameter that the contract cuts: it has its
/// binding and its tensor, and bytes in proportion to the rows of the shard.
pub open spec fn is_fragment_of(
    task: DispatchTaskModel,
    plan: VulkanDistributedDispatchPlanModel,
    index: int,
    shard: VulkanDistributedDispatchShardModel,
    fragment: VulkanDistributedParameterFragmentModel,
) -> bool {
    let partition = task.contract.parameter_partitions[index];
    &&& fragment.binding == partition.binding
    &&& fragment.tensor == partition.resource
    &&& task.tensors.tensors.contains_key(partition.resource)
    &&& task.tensors.tensors[partition.resource].byte_count is Some
    &&& fragment.byte_offset * plan.output_rows == shard.row_start * partition_bytes(task, index)
    &&& fragment.byte_count * plan.output_rows == shard.row_count * partition_bytes(task, index)
}

/// Every shard holds one fragment of every parameter that the contract cuts, at its
/// binding, with bytes in proportion to the rows of the shard.
pub proof fn law_shards_hold_their_parameters(
    task: DispatchTaskModel,
    plan: VulkanDistributedDispatchPlanModel,
    shard: int,
)
    requires
        task.gives(plan),
        0 <= shard < plan.shards.len(),
    ensures
        plan.shards[shard].parameters.len() == task.contract.parameter_partitions.len(),
        forall|k: int|
            0 <= k < task.contract.parameter_partitions.len() ==> is_fragment_of(
                task,
                plan,
                k,
                plan.shards[shard],
                #[trigger] plan.shards[shard].parameters[k],
            ),
{
    lemma_task(task, plan);
    let extent = task.extent();
    let slices = task.sliced().1;
    let rows = task.rows()[shard];
    let own = plan.shards[shard];
    lemma_slices_found(
        task.dispatch,
        task.tensors,
        extent,
        task.contract.parameter_partitions,
        0,
        task.signals().alignment,
        Seq::empty(),
    );
    assert forall|k: int| 0 <= k < slices.len() implies (
    #[trigger] slices[k]).logical_elements_per_index > 0 by {
        assert(is_slice_of(
            task.contract.parameter_partitions[k],
            task.tensors,
            extent,
            slices[k],
            task.sliced().0,
        ));
    }
    lemma_fragments_found(task.dispatch, rows.0, rows.1, slices, 0, Seq::empty());
    assert forall|k: int|
        0 <= k < task.contract.parameter_partitions.len() implies is_fragment_of(
        task,
        plan,
        k,
        own,
        #[trigger] own.parameters[k],
    ) by {
        let fragment = own.parameters[k];
        let slice = slices[k];
        assert(is_slice_of(
            task.contract.parameter_partitions[k],
            task.tensors,
            extent,
            slice,
            task.sliced().0,
        ));
        let leading = task.tensors.tensors[slice.tensor].shape[0] as int;
        let elements = slice.logical_elements_per_index as int;
        let bytes = slice.bytes_per_physical_index as int;
        let total = partition_bytes(task, k);
        assert(fragment.byte_offset * extent == own.row_start * total) by (nonlinear_arith)
            requires
                fragment.byte_offset * elements == own.row_start * bytes,
                leading * elements == extent,
                bytes * leading == total,
        ;
        assert(fragment.byte_count * extent == own.row_count * total) by (nonlinear_arith)
            requires
                fragment.byte_count * elements == own.row_count * bytes,
                leading * elements == extent,
                bytes * leading == total,
        ;
    }
}

/// The fragments of a parameter hold every byte of its tensor once: the first starts at byte
/// zero, each starts where the one before it ends, and the last ends with the tensor.
pub proof fn law_fragments_tile_their_tensor(
    task: DispatchTaskModel,
    plan: VulkanDistributedDispatchPlanModel,
    partition: int,
)
    requires
        task.gives(plan),
        task.device_ids.no_duplicates(),
        task.device_ids.len() <= usize::MAX,
        0 <= partition < task.contract.parameter_partitions.len(),
    ensures
        plan.shards[0].parameters[partition].byte_offset == 0,
        plan.shards.last().parameters[partition].byte_offset
            + plan.shards.last().parameters[partition].byte_count == partition_bytes(
            task,
            partition,
        ),
        forall|i: int|
            0 <= i < plan.shards.len() - 1 ==> (
            #[trigger] plan.shards[i]).parameters[partition].byte_offset
                + plan.shards[i].parameters[partition].byte_count == plan.shards[i
                + 1].parameters[partition].byte_offset,
{
    lemma_task(task, plan);
    law_shards_tile_what_is_cut(task, plan);
    let shards = plan.shards;
    let last = shards.len() - 1;
    let rows = plan.output_rows as int;
    let capacity = partition_bytes(task, partition);
    law_shards_hold_their_parameters(task, plan, 0);
    law_shards_hold_their_parameters(task, plan, last);
    let first = shards[0].parameters[partition];
    let ending = shards[last].parameters[partition];
    assert(first.byte_offset == 0) by (nonlinear_arith)
        requires
            first.byte_offset * rows == 0 * capacity,
            rows > 0,
    ;
    assert(capacity * rows == rows * capacity) by (nonlinear_arith);
    lemma_bytes_meet(
        rows,
        capacity,
        (shards[last].row_start as int, shards[last].row_count as int),
        (ending.byte_offset as int, ending.byte_count as int),
        rows,
        capacity,
    );
    assert forall|i: int| 0 <= i < shards.len() - 1 implies (
    #[trigger] shards[i]).parameters[partition].byte_offset
        + shards[i].parameters[partition].byte_count == shards[i
        + 1].parameters[partition].byte_offset by {
        law_shards_hold_their_parameters(task, plan, i);
        law_shards_hold_their_parameters(task, plan, i + 1);
        let own = shards[i].parameters[partition];
        let next = shards[i + 1].parameters[partition];
        lemma_bytes_meet(
            rows,
            capacity,
            (shards[i].row_start as int, shards[i].row_count as int),
            (own.byte_offset as int, own.byte_count as int),
            shards[i + 1].row_start as int,
            next.byte_offset as int,
        );
    }
}

/// The alignment keeps the aligned runs of a parameter whole, and its packed pairs of rows.
pub open spec fn keeps_parameter_aligned(
    tensors: TensorIndexModel,
    partition: ParameterPartitionModel,
    alignment: nat,
) -> bool {
    &&& divides(
        (partition.alignment_elements * partition.logical_elements_per_index) as nat,
        alignment,
    )
    &&& tensors.tensors[partition.resource].layout == Some("vulkan_bf16_row_pair_u32"@) ==> divides(
        (2 * partition.logical_elements_per_index) as nat,
        alignment,
    )
}

/// The rows at which shards start are aligned as the contract, every parameter and every
/// workgroup ask, and what starts there starts at an aligned byte of every sharded input
/// and of a concatenated output.
pub proof fn law_shards_start_aligned(
    task: DispatchTaskModel,
    plan: VulkanDistributedDispatchPlanModel,
    shard: int,
)
    requires
        task.gives(plan),
        task.offset_alignment > 0,
        0 <= shard < plan.shards.len(),
    ensures
        divides(
            task.contract.partition_extent->0.alignment_elements as nat,
            plan.row_alignment as nat,
        ),
        plan.shards[shard].row_start as int % plan.row_alignment as int == 0,
        forall|k: int|
            0 <= k < task.contract.parameter_partitions.len() ==> keeps_parameter_aligned(
                task.tensors,
                #[trigger] task.contract.parameter_partitions[k],
                plan.row_alignment as nat,
            ),
        plan.distribution is OutputRows ==> exists|elements: nat|
            #![trigger divides(elements, plan.row_alignment as nat)]
            elements * task.artifact.workgroup_count_x == plan.output_rows && divides(
                elements,
                plan.row_alignment as nat,
            ),
        plan.output_collection is Concatenated && plan.reduction is None ==> divides(
            task.offset_alignment as nat,
            plan.shards[shard].output_byte_offset as nat,
        ),
        forall|j: int|
            0 <= j < task.contract.inputs.len() && #[trigger] distribution_of(plan, j) is Sharded
                ==> divides(
                task.offset_alignment as nat,
                read_of(plan.shards[shard], j).byte_offset as nat,
            ),
{
    lemma_task(task, plan);
    lemma_inputs(task, plan);
    let extent = task.extent();
    let asked = task.signals().alignment as nat;
    let sliced = task.sliced().0 as nat;
    let cut = task.cut().1 as nat;
    let own = plan.shards[shard];
    law_row_shards_tile_the_rows(
        extent,
        task.device_ids.len() as usize,
        task.cut().0,
        task.cut().1,
    );
    assert(own.row_start == task.rows()[shard].0);
    lemma_slices_found(
        task.dispatch,
        task.tensors,
        extent,
        task.contract.parameter_partitions,
        0,
        task.signals().alignment,
        Seq::empty(),
    );
    lemma_divides_itself(sliced);
    if plan.distribution is OutputRows {
        lemma_divides_lcm(sliced, task.cut().0 as nat);
        let groups = task.artifact.workgroup_count_x as int;
        lemma_fundamental_div_mod(extent as int, groups);
        assert(task.cut().0 as nat * task.artifact.workgroup_count_x == plan.output_rows)
            by (nonlinear_arith)
            requires
                extent == groups * task.cut().0,
                groups == task.artifact.workgroup_count_x,
                plan.output_rows == extent,
        ;
        assert(divides(task.cut().0 as nat, plan.row_alignment as nat));
    }
    assert(divides(sliced, cut));
    lemma_divides_chain(asked, sliced, cut);
    lemma_divides_chain(
        task.contract.partition_extent->0.alignment_elements as nat,
        asked,
        cut,
    );
    assert forall|k: int|
        0 <= k < task.contract.parameter_partitions.len() implies keeps_parameter_aligned(
        task.tensors,
        #[trigger] task.contract.parameter_partitions[k],
        plan.row_alignment as nat,
    ) by {
        let partition = task.contract.parameter_partitions[k];
        let slice = task.sliced().1[k];
        assert(is_slice_of(partition, task.tensors, extent, slice, task.sliced().0));
        lemma_divides_chain(
            (partition.alignment_elements * partition.logical_elements_per_index) as nat,
            sliced,
            cut,
        );
        if task.tensors.tensors[partition.resource].layout == Some("vulkan_bf16_row_pair_u32"@) {
            lemma_divides_chain(
                (2 * partition.logical_elements_per_index) as nat,
                sliced,
                cut,
            );
        }
    }
    lemma_fundamental_div_mod(own.row_start as int, cut as int);
    assert(own.row_start as nat == cut * (own.row_start as nat / cut)) by (nonlinear_arith)
        requires
            own.row_start as int == cut as int * (own.row_start as int / cut as int),
            cut > 0,
    ;
    assert(divides(cut, own.row_start as nat));
    lemma_divides_chain(asked, cut, own.row_start as nat);
    law_shards_read_and_write_their_rows(task, plan, shard);
    if plan.output_collection is Concatenated && plan.reduction is None {
        lemma_divides_product(
            task.offset_alignment as nat,
            asked,
            plan.output_activation.signal_byte_capacity as nat / extent as nat,
            own.row_start as nat,
        );
    }
    lemma_ranges_found(
        task.dispatch,
        task.geometry(),
        own.row_start,
        own.row_count,
        0,
        Seq::empty(),
    );
    assert forall|j: int|
        0 <= j < task.contract.inputs.len() && #[trigger] distribution_of(
            plan,
            j,
        ) is Sharded implies divides(
        task.offset_alignment as nat,
        read_of(own, j).byte_offset as nat,
    ) by {
        assert(task.contract.inputs[j].distribution is Sharded);
        assert(input_of(plan, j) == task.signals().inputs[j]);
        lemma_divides_product(
            task.offset_alignment as nat,
            asked,
            input_of(plan, j).signal_byte_capacity as nat / extent as nat,
            own.row_start as nat,
        );
    }
}

/// Where whole experts are owned, a shard owns of every selector of the plan the resources
/// that its rows number; otherwise it owns none.
pub proof fn law_shards_own_the_experts_of_their_rows(
    task: DispatchTaskModel,
    plan: VulkanDistributedDispatchPlanModel,
    shard: int,
)
    requires
        task.gives(plan),
        0 <= shard < plan.shards.len(),
    ensures
        plan.shards[shard].selected_resource_fragments.dom() == Set::<Seq<char>>::empty(),
        !(plan.distribution is ExpertRange) ==> plan.shards[shard].selected_resource_indices
            == Map::<Seq<char>, Seq<usize>>::empty(),
        plan.distribution is ExpertRange ==> {
            let own = plan.shards[shard];
            &&& forall|k: int|
                0 <= k < plan.selected_resource_partitions.len()
                    ==> own.selected_resource_indices.contains_key(
                    (#[trigger] plan.selected_resource_partitions[k]).selector_id,
                )
            &&& forall|selector: Seq<char>| #[trigger]
                own.selected_resource_indices.contains_key(selector) ==> {
                    &&& own.selected_resource_indices[selector].len() == own.row_count
                    &&& forall|i: int|
                        0 <= i < own.row_count ==> #[trigger]
                        own.selected_resource_indices[selector][i] == own.row_start + i
                    &&& exists|k: int|
                        0 <= k < plan.selected_resource_partitions.len() && (
                        #[trigger] plan.selected_resource_partitions[k]).selector_id == selector
                }
        },
{
    lemma_task(task, plan);
    law_row_shards_tile_the_rows(
        task.extent(),
        task.device_ids.len() as usize,
        task.cut().0,
        task.cut().1,
    );
    let own = plan.shards[shard];
    let rows = task.rows();
    assert(own.row_start == rows[shard].0 && own.row_count == rows[shard].1);
    lemma_rows_end(rows, task.extent() as int, shard);
    let names = task.geometry().selector_ids;
    if plan.distribution is ExpertRange {
        lemma_range_owned(names, own.row_start, own.row_count);
        assert forall|k: int|
            0 <= k < plan.selected_resource_partitions.len() implies
            own.selected_resource_indices.contains_key(
            (#[trigger] plan.selected_resource_partitions[k]).selector_id,
        ) by {
            assert(names[k] == plan.selected_resource_partitions[k].selector_id);
        }
        assert forall|selector: Seq<char>| #[trigger]
            own.selected_resource_indices.contains_key(selector) implies exists|k: int|
            0 <= k < plan.selected_resource_partitions.len() && (
            #[trigger] plan.selected_resource_partitions[k]).selector_id == selector by {
            let k = choose|k: int| 0 <= k < names.len() && names[k] == selector;
            assert(plan.selected_resource_partitions[k].selector_id == selector);
        }
    }
}

proof fn lemma_rows_end(rows: Seq<(usize, usize)>, extent: int, index: int)
    requires
        0 <= index < rows.len(),
        rows.last().0 + rows.last().1 == extent,
        forall|i: int| 0 <= i < rows.len() - 1 ==> (#[trigger] rows[i]).0 + rows[i].1 == rows[i
            + 1].0,
    ensures
        rows[index].0 + rows[index].1 <= extent,
    decreases rows.len() - index,
{
    if index < rows.len() - 1 {
        lemma_rows_end(rows, extent, index + 1);
        assert(rows[index].0 + rows[index].1 == rows[index + 1].0);
    }
}

proof fn lemma_range_owned(names: Seq<Seq<char>>, start: usize, count: usize)
    requires
        start + count <= usize::MAX,
    ensures
        forall|k: int| 0 <= k < names.len() ==> range_ownership(names, start, count).contains_key(
            #[trigger] names[k],
        ),
        forall|selector: Seq<char>| #[trigger]
            range_ownership(names, start, count).contains_key(selector) ==> names.contains(
                selector,
            ) && range_ownership(names, start, count)[selector].len() == count && forall|i: int|
                0 <= i < count ==> #[trigger] range_ownership(names, start, count)[selector][i]
                    == start + i,
    decreases names.len(),
{
    if names.len() > 0 {
        let rest = names.drop_last();
        lemma_range_owned(rest, start, count);
        let before = range_ownership(rest, start, count);
        assert forall|k: int| 0 <= k < names.len() implies range_ownership(
            names,
            start,
            count,
        ).contains_key(#[trigger] names[k]) by {
            if k < rest.len() {
                assert(rest[k] == names[k]);
            }
        }
        assert forall|selector: Seq<char>| #[trigger]
            range_ownership(names, start, count).contains_key(selector) implies names.contains(
            selector,
        ) && range_ownership(names, start, count)[selector].len() == count && forall|i: int|
            0 <= i < count ==> #[trigger] range_ownership(names, start, count)[selector][i]
                == start + i by {
            if selector == names.last() {
                assert(names[names.len() - 1] == selector);
            } else {
                assert(before.contains_key(selector));
                let k = choose|k: int| 0 <= k < rest.len() && rest[k] == selector;
                assert(names[k] == selector);
                assert(range_ownership(names, start, count)[selector] == before[selector]);
            }
        }
    }
}

/// The first shard is on the owner, and the others are on the other devices of the pool in
/// their order.
pub proof fn law_shards_follow_the_pool(
    task: DispatchTaskModel,
    plan: VulkanDistributedDispatchPlanModel,
)
    requires
        task.gives(plan),
        plan.shards.len() > 0,
    ensures
        plan.shards[0].device_id == task.owner_device_id,
        forall|i: int|
            1 <= i < plan.shards.len() ==> (#[trigger] plan.shards[i]).device_id
                != task.owner_device_id && task.device_ids.contains(plan.shards[i].device_id),
        forall|i: int, j: int|
            #![trigger plan.shards[i], plan.shards[j]]
            1 <= i < j < plan.shards.len() ==> stand_in_order(
                task.device_ids,
                plan.shards[i].device_id,
                plan.shards[j].device_id,
            ),
{
    lemma_task(task, plan);
    let condition = crate::contract_planning::other_than(task.owner_device_id);
    assert forall|i: int| 1 <= i < plan.shards.len() implies (
    #[trigger] plan.shards[i]).device_id != task.owner_device_id && task.device_ids.contains(
        plan.shards[i].device_id,
    ) by {
        lemma_kept_place(task.device_ids, condition, i - 1);
    }
    assert forall|i: int, j: int|
        #![trigger plan.shards[i], plan.shards[j]]
        1 <= i < j < plan.shards.len() implies stand_in_order(
        task.device_ids,
        plan.shards[i].device_id,
        plan.shards[j].device_id,
    ) by {
        lemma_kept_order(task.device_ids, condition, i - 1, j - 1);
    }
}

/// What is kept stands in the list and satisfies the condition.
pub proof fn lemma_kept_place<T>(items: Seq<T>, condition: spec_fn(T) -> bool, index: int)
    requires
        0 <= index < crate::sequences::kept(items, condition).len(),
    ensures
        condition(crate::sequences::kept(items, condition)[index]),
        items.contains(crate::sequences::kept(items, condition)[index]),
    decreases items.len(),
{
    let kept = crate::sequences::kept(items, condition);
    let rest = items.drop_last();
    let earlier = crate::sequences::kept(rest, condition);
    if index < earlier.len() {
        lemma_kept_place(rest, condition, index);
        let k = choose|k: int| 0 <= k < rest.len() && rest[k] == earlier[index];
        assert(items[k] == kept[index]);
    } else {
        assert(items[items.len() - 1] == kept[index]);
    }
}

/// One item stands before another one in a list.
pub open spec fn stand_in_order<T>(items: Seq<T>, left: T, right: T) -> bool {
    exists|a: int, b: int|
        #![trigger items[a], items[b]]
        0 <= a < b < items.len() && items[a] == left && items[b] == right
}

/// What is kept stands in the order of the list.
pub proof fn lemma_kept_order<T>(
    items: Seq<T>,
    condition: spec_fn(T) -> bool,
    left: int,
    right: int,
)
    requires
        0 <= left < right < crate::sequences::kept(items, condition).len(),
    ensures
        stand_in_order(
            items,
            crate::sequences::kept(items, condition)[left],
            crate::sequences::kept(items, condition)[right],
        ),
    decreases items.len(),
{
    let kept = crate::sequences::kept(items, condition);
    let rest = items.drop_last();
    let earlier = crate::sequences::kept(rest, condition);
    if right < earlier.len() {
        lemma_kept_order(rest, condition, left, right);
        let (a, b) = choose|a: int, b: int|
            #![trigger rest[a], rest[b]]
            0 <= a < b < rest.len() && rest[a] == earlier[left] && rest[b] == earlier[right];
        assert(items[a] == kept[left] && items[b] == kept[right]);
    } else {
        lemma_kept_place(rest, condition, left);
        let a = choose|a: int| 0 <= a < rest.len() && rest[a] == earlier[left];
        let b = items.len() - 1;
        assert(items[a] == kept[left] && items[b] == kept[right]);
    }
}

} // verus!
