//! Laws of planned dispatches and of the parameters that they need.
use vstd::prelude::*;

use crate::contract_planning::{
    distributed_bytes_step, other_than, planned_dispatch, planned_shard, planned_shards_from,
    shard_devices, shard_geometry, slice_step, workgroup_cut, ShardGeometryModel,
};
use crate::contract_selection::selected_contract;
use crate::contracts::PhysicalExecutionContractModel;
use crate::dispatch_shards::{
    VulkanDistributedDispatchShardModel, VulkanDistributedParameterFragmentModel,
};
use crate::execution_plans::{
    VulkanDistributedDispatchPlanModel, VulkanDistributedExecutionPlanModel,
    VulkanDistributedExecutionPlanSetModel, VulkanSharedResidentBufferRoute,
};
use crate::island_plans::{flattened, law_islands_partition_the_dispatches};
use crate::islands::fragment_bytes;
use crate::ordered::{
    lemma_listed_at, lemma_ordered_listing_exists, lists_key, ordered_listing,
};
use crate::parameter_buffers::holds_fragment;
use crate::parameter_laws::{contains_allocation, law_merged_plan_holds_every_allocation};
use crate::parameter_plans::{
    all_allocations, dispatch_use_step, end_of, execution_parameters, fragment_key,
    fragment_use_step, merged_plan, set_parameters, shard_use_step, used_allocation,
    used_allocations, AllocationKey, AllocationKeyModel,
    VulkanDistributedParameterAllocationPlanModel,
};
use crate::prepared::{
    CompiledResourceResidencyContractModel, ComponentEdgePlacementModel, TensorIndexModel,
    VulkanPhysicalKernelArtifactModel,
    VulkanPreparedDispatchModel,
};
use crate::plan_building::{
    built_plan, dispatch_step, nothing_planned, owner_step, pool_step, OwnedPlanModel,
    PlanningContextModel, PlanningModel,
};
use crate::planning::device_pool_fault_from;
use crate::row_distribution::{law_row_shards_tile_the_rows, row_shards};
use crate::runner_stages::{island_rows_fit, islands_are_sound};
use crate::sequences::{fold_from, kept, sum_of};

verus! {

/// The parameter bytes of a shard.
pub open spec fn bytes_of_shard() -> spec_fn(VulkanDistributedDispatchShardModel) -> nat {
    |shard: VulkanDistributedDispatchShardModel| sum_of(shard.parameters, fragment_bytes())
}

proof fn lemma_bytes_added(
    dispatch: VulkanPreparedDispatchModel,
    parameters: Seq<VulkanDistributedParameterFragmentModel>,
    index: nat,
    bytes: usize,
)
    requires
        index <= parameters.len(),
        fold_from(parameters, index, bytes, distributed_bytes_step(dispatch)) is Ok,
    ensures
        fold_from(parameters, index, bytes, distributed_bytes_step(dispatch))->Ok_0 + sum_of(
            parameters.take(index as int),
            fragment_bytes(),
        ) == bytes + sum_of(parameters, fragment_bytes()),
    decreases parameters.len() - index,
{
    if index < parameters.len() {
        let fragment = parameters[index as int];
        lemma_bytes_added(
            dispatch,
            parameters,
            index + 1,
            (bytes + fragment.byte_count) as usize,
        );
        assert(parameters.take(index as int + 1).drop_last() =~= parameters.take(index as int));
    } else {
        assert(parameters.take(index as int) =~= parameters);
    }
}

proof fn lemma_shards_planned(
    dispatch: VulkanPreparedDispatchModel,
    geometry: ShardGeometryModel,
    devices: Seq<Seq<char>>,
    rows: Seq<(usize, usize)>,
    index: nat,
    bytes: usize,
    planned: Seq<VulkanDistributedDispatchShardModel>,
)
    requires
        rows.len() <= devices.len(),
        index <= rows.len(),
        planned.len() == index,
        planned_shards_from(dispatch, geometry, devices, rows, index, bytes, planned) is Ok,
    ensures
        ({
            let (total, shards) = planned_shards_from(
                dispatch,
                geometry,
                devices,
                rows,
                index,
                bytes,
                planned,
            )->Ok_0;
            &&& shards.len() == rows.len()
            &&& shards.take(index as int) == planned
            &&& forall|i: int|
                index <= i < rows.len() ==> (#[trigger] shards[i]).row_start == rows[i].0
                    && shards[i].row_count == rows[i].1 && shards[i].device_id == devices[i]
            &&& total + sum_of(planned, bytes_of_shard()) == bytes + sum_of(
                shards,
                bytes_of_shard(),
            )
        }),
    decreases rows.len() - index,
{
    if index < rows.len() {
        let (next, shard) = planned_shard(
            dispatch,
            geometry,
            devices[index as int],
            rows[index as int].0,
            rows[index as int].1,
            bytes,
        )->Ok_0;
        lemma_bytes_added(dispatch, shard.parameters, 0, bytes);
        assert(shard.parameters.take(0) =~= Seq::empty());
        let grown = planned.push(shard);
        lemma_shards_planned(dispatch, geometry, devices, rows, index + 1, next, grown);
        let (total, shards) = planned_shards_from(
            dispatch,
            geometry,
            devices,
            rows,
            index + 1,
            next,
            grown,
        )->Ok_0;
        assert(grown.drop_last() =~= planned);
        assert(shards.take(index as int) =~= shards.take(index as int + 1).take(index as int));
        assert(grown.take(index as int) =~= planned);
        assert(shards[index as int] == shards.take(index as int + 1)[index as int]);
    } else {
        assert(planned.take(index as int) =~= planned);
    }
}

proof fn lemma_kept_others(device_ids: Seq<Seq<char>>, owner_device_id: Seq<char>)
    requires
        device_ids.no_duplicates(),
    ensures
        kept(device_ids, other_than(owner_device_id)).len() + 1 >= device_ids.len(),
        !device_ids.contains(owner_device_id) ==> kept(
            device_ids,
            other_than(owner_device_id),
        ).len() == device_ids.len(),
    decreases device_ids.len(),
{
    if device_ids.len() > 0 {
        let rest = device_ids.drop_last();
        assert(rest.no_duplicates());
        lemma_kept_others(rest, owner_device_id);
        if device_ids.last() == owner_device_id {
            if rest.contains(owner_device_id) {
                let k = choose|k: int| 0 <= k < rest.len() && rest[k] == owner_device_id;
                assert(device_ids[k] == device_ids[device_ids.len() - 1]);
            }
        }
        if !device_ids.contains(owner_device_id) {
            if rest.contains(owner_device_id) {
                let k = choose|k: int| 0 <= k < rest.len() && rest[k] == owner_device_id;
                assert(device_ids[k] == owner_device_id);
            }
            assert(device_ids[device_ids.len() - 1] != owner_device_id);
        }
    }
}

/// The shards of a dispatch cover its rows: the first, on the owner, starts at row zero,
/// each starts where the one before it ends, at an aligned row, none is empty, and the
/// last ends behind the last row.
pub open spec fn shards_tile(plan: VulkanDistributedDispatchPlanModel) -> bool {
    let shards = plan.shards;
    &&& shards.len() >= 2
    &&& shards[0].device_id == plan.owner_device_id
    &&& shards[0].row_start == 0
    &&& shards.last().row_start + shards.last().row_count == plan.output_rows
    &&& forall|i: int| 0 <= i < shards.len() ==> (#[trigger] shards[i]).row_count > 0
    &&& forall|i: int|
        0 <= i < shards.len() ==> (#[trigger] shards[i]).row_start % plan.row_alignment == 0
    &&& forall|i: int|
        0 <= i < shards.len() - 1 ==> (#[trigger] shards[i]).row_start + shards[i].row_count
            == shards[i + 1].row_start
}

/// The shards of a planned dispatch cover its rows, and its parameter bytes are those of
/// its shards.
pub proof fn law_planned_shards_tile_the_rows(
    owner_device_id: Seq<char>,
    dispatch: VulkanPreparedDispatchModel,
    tensors: TensorIndexModel,
    device_ids: Seq<Seq<char>>,
    edges: Seq<ComponentEdgePlacementModel>,
    artifact: VulkanPhysicalKernelArtifactModel,
    contract: PhysicalExecutionContractModel,
    offset_alignment: usize,
    resource_context: Option<(Seq<char>, CompiledResourceResidencyContractModel)>,
)
    requires
        device_ids.no_duplicates(),
        device_ids.len() <= usize::MAX,
        planned_dispatch(
            owner_device_id,
            dispatch,
            tensors,
            device_ids,
            edges,
            artifact,
            contract,
            offset_alignment,
            resource_context,
        ) is Ok,
        planned_dispatch(
            owner_device_id,
            dispatch,
            tensors,
            device_ids,
            edges,
            artifact,
            contract,
            offset_alignment,
            resource_context,
        )->Ok_0 is Some,
    ensures
        ({
            let plan = planned_dispatch(
                owner_device_id,
                dispatch,
                tensors,
                device_ids,
                edges,
                artifact,
                contract,
                offset_alignment,
                resource_context,
            )->Ok_0->0;
            &&& shards_tile(plan)
            &&& plan.distributed_parameter_byte_count == sum_of(plan.shards, bytes_of_shard())
        }),
{
    let extent = crate::arithmetic::narrowed(contract.partition_extent->0.elements)->0;
    let launch = contract.partition_launch->0;
    let partitions = crate::selected_resources::resolved_partitions(
        dispatch,
        contract,
        resource_context,
    )->Ok_0;
    let signals = crate::contract_planning::planned_signals(
        dispatch,
        edges,
        contract,
        offset_alignment,
        extent,
        crate::arithmetic::narrowed(contract.partition_extent->0.alignment_elements)->0,
    )->Ok_0;
    let (slice_alignment, slices) = fold_from(
        contract.parameter_partitions,
        0,
        (signals.alignment, Seq::empty()),
        slice_step(dispatch, tensors, extent),
    )->Ok_0;
    let (workgroup_elements, alignment) = workgroup_cut(
        dispatch,
        artifact,
        contract.execution_form,
        extent,
        slice_alignment,
    )->Ok_0;
    let rows = row_shards(
        extent,
        device_ids.len() as usize,
        workgroup_elements,
        alignment,
    )->Ok_0;
    law_row_shards_tile_the_rows(
        extent,
        device_ids.len() as usize,
        workgroup_elements,
        alignment,
    );
    let devices = shard_devices(owner_device_id, device_ids);
    lemma_kept_others(device_ids, owner_device_id);
    assert(devices.len() >= device_ids.len());
    let geometry = shard_geometry(
        artifact,
        contract,
        launch.origin,
        signals,
        slices,
        partitions,
        extent,
        workgroup_elements,
    );
    lemma_shards_planned(dispatch, geometry, devices, rows, 0, 0, Seq::empty());
    let (total, shards) = planned_shards_from(
        dispatch,
        geometry,
        devices,
        rows,
        0,
        0,
        Seq::empty(),
    )->Ok_0;
    let plan = planned_dispatch(
        owner_device_id,
        dispatch,
        tensors,
        device_ids,
        edges,
        artifact,
        contract,
        offset_alignment,
        resource_context,
    )->Ok_0->0;
    assert(plan.shards == shards);
    assert(devices[0] == owner_device_id);
    assert forall|i: int| 0 <= i < shards.len() - 1 implies (#[trigger] shards[i]).row_start
        + shards[i].row_count == shards[i + 1].row_start by {
        assert(rows[i].0 + rows[i].1 == rows[i + 1].0);
    }
    assert forall|i: int| 0 <= i < shards.len() implies (#[trigger] shards[i]).row_count > 0
        && shards[i].row_start % plan.row_alignment == 0 by {
        assert(rows[i].1 > 0);
    }
}

/// Counting keeps the fragments that were counted, each as a range that is not empty
/// and can be addressed.
pub open spec fn counts_soundly(uses: Map<AllocationKeyModel, usize>) -> bool {
    &&& uses.dom().finite()
    &&& forall|key: AllocationKeyModel| #[trigger]
        uses.contains_key(key) ==> uses[key] > 0 && key.1.1.1 > 0 && key.1.1.0 + key.1.1.1
            <= usize::MAX
}

proof fn lemma_fragments_counted(
    tensors: TensorIndexModel,
    device_id: Seq<char>,
    fragments: Seq<VulkanDistributedParameterFragmentModel>,
    index: nat,
    uses: Map<AllocationKeyModel, usize>,
)
    requires
        counts_soundly(uses),
        index <= fragments.len(),
        fold_from(fragments, index, uses, fragment_use_step(tensors, device_id)) is Ok,
    ensures
        counts_soundly(
            fold_from(fragments, index, uses, fragment_use_step(tensors, device_id))->Ok_0,
        ),
        uses.dom().subset_of(
            fold_from(fragments, index, uses, fragment_use_step(tensors, device_id))->Ok_0.dom(),
        ),
        forall|i: int|
            index <= i < fragments.len() ==> fold_from(
                fragments,
                index,
                uses,
                fragment_use_step(tensors, device_id),
            )->Ok_0.contains_key(fragment_key(device_id, #[trigger] fragments[i])),
    decreases fragments.len() - index,
{
    if index < fragments.len() {
        let step = fragment_use_step(tensors, device_id);
        let next = step(uses, fragments[index as int])->Ok_0;
        assert(counts_soundly(next));
        lemma_fragments_counted(tensors, device_id, fragments, index + 1, next);
        assert(next.dom().contains(fragment_key(device_id, fragments[index as int])));
    }
}

proof fn lemma_shards_counted(
    tensors: TensorIndexModel,
    device_ids: Seq<Seq<char>>,
    dispatch: VulkanDistributedDispatchPlanModel,
    index: nat,
    uses: Map<AllocationKeyModel, usize>,
)
    requires
        counts_soundly(uses),
        index <= dispatch.shards.len(),
        fold_from(
            dispatch.shards,
            index,
            uses,
            shard_use_step(tensors, device_ids, dispatch),
        ) is Ok,
    ensures
        counts_soundly(
            fold_from(
                dispatch.shards,
                index,
                uses,
                shard_use_step(tensors, device_ids, dispatch),
            )->Ok_0,
        ),
        uses.dom().subset_of(
            fold_from(
                dispatch.shards,
                index,
                uses,
                shard_use_step(tensors, device_ids, dispatch),
            )->Ok_0.dom(),
        ),
        forall|s: int, f: int|
            #![trigger dispatch.shards[s].parameters[f]]
            index <= s < dispatch.shards.len() && 0 <= f < dispatch.shards[s].parameters.len()
                ==> fold_from(
                dispatch.shards,
                index,
                uses,
                shard_use_step(tensors, device_ids, dispatch),
            )->Ok_0.contains_key(
                fragment_key(dispatch.shards[s].device_id, dispatch.shards[s].parameters[f]),
            ),
    decreases dispatch.shards.len() - index,
{
    if index < dispatch.shards.len() {
        let shard = dispatch.shards[index as int];
        let step = shard_use_step(tensors, device_ids, dispatch);
        let next = step(uses, shard)->Ok_0;
        lemma_fragments_counted(tensors, shard.device_id, shard.parameters, 0, uses);
        lemma_shards_counted(tensors, device_ids, dispatch, index + 1, next);
        let last = fold_from(dispatch.shards, index + 1, next, step)->Ok_0;
        assert forall|s: int, f: int|
            #![trigger dispatch.shards[s].parameters[f]]
            index <= s < dispatch.shards.len() && 0 <= f < dispatch.shards[s].parameters.len()
            implies last.contains_key(
            fragment_key(dispatch.shards[s].device_id, dispatch.shards[s].parameters[f]),
        ) by {
            if s == index {
                assert(next.dom().contains(
                    fragment_key(shard.device_id, shard.parameters[f]),
                ));
            }
        }
    }
}

proof fn lemma_dispatches_counted(
    tensors: TensorIndexModel,
    device_ids: Seq<Seq<char>>,
    dispatches: Seq<VulkanDistributedDispatchPlanModel>,
    index: nat,
    uses: Map<AllocationKeyModel, usize>,
    dispatch: int,
    shard: int,
    fragment: int,
)
    requires
        counts_soundly(uses),
        index <= dispatches.len(),
        fold_from(dispatches, index, uses, dispatch_use_step(tensors, device_ids)) is Ok,
    ensures
        counts_soundly(
            fold_from(dispatches, index, uses, dispatch_use_step(tensors, device_ids))->Ok_0,
        ),
        uses.dom().subset_of(
            fold_from(dispatches, index, uses, dispatch_use_step(tensors, device_ids))->Ok_0.dom(),
        ),
        index <= dispatch < dispatches.len() && 0 <= shard < dispatches[dispatch].shards.len() && 0
            <= fragment < dispatches[dispatch].shards[shard].parameters.len() ==> fold_from(
            dispatches,
            index,
            uses,
            dispatch_use_step(tensors, device_ids),
        )->Ok_0.contains_key(
            fragment_key(
                dispatches[dispatch].shards[shard].device_id,
                dispatches[dispatch].shards[shard].parameters[fragment],
            ),
        ),
    decreases dispatches.len() - index,
{
    if index < dispatches.len() {
        let step = dispatch_use_step(tensors, device_ids);
        let own = dispatches[index as int];
        let next = step(uses, own)->Ok_0;
        lemma_shards_counted(tensors, device_ids, own, 0, uses);
        lemma_dispatches_counted(
            tensors,
            device_ids,
            dispatches,
            index + 1,
            next,
            dispatch,
            shard,
            fragment,
        );
        if dispatch == index && 0 <= shard < own.shards.len() && 0 <= fragment
            < own.shards[shard].parameters.len() {
            assert(next.dom().contains(
                fragment_key(own.shards[shard].device_id, own.shards[shard].parameters[fragment]),
            ));
        }
    }
}

/// Every parameter fragment of every shard of a plan has an allocation of exactly its
/// bytes on the device of the shard, which can be found there.
pub proof fn law_planned_fragments_are_allocated(
    plan: VulkanDistributedExecutionPlanModel,
    tensors: TensorIndexModel,
    complete: bool,
    dispatch: int,
    shard: int,
    fragment: int,
) -> (place: int)
    requires
        execution_parameters(plan, tensors, complete) is Ok,
        0 <= dispatch < plan.dispatches.len(),
        0 <= shard < plan.dispatches[dispatch].shards.len(),
        0 <= fragment < plan.dispatches[dispatch].shards[shard].parameters.len(),
    ensures
        0 <= place < execution_parameters(plan, tensors, complete)->Ok_0.allocations.len(),
        ({
            let on = plan.dispatches[dispatch].shards[shard];
            let needed = on.parameters[fragment];
            let allocation = execution_parameters(
                plan,
                tensors,
                complete,
            )->Ok_0.allocations[place];
            &&& allocation.device_id == on.device_id
            &&& allocation.tensor == needed.tensor
            &&& allocation.byte_offset == needed.byte_offset
            &&& allocation.byte_count == needed.byte_count
            &&& allocation.use_count > 0
            &&& holds_fragment(
                allocation,
                on.device_id,
                needed.tensor,
                needed.byte_offset,
                needed.byte_count,
            )
        }),
{
    let step = dispatch_use_step(tensors, plan.device_ids);
    let uses = fold_from(plan.dispatches, 0, Map::empty(), step)->Ok_0;
    lemma_dispatches_counted(
        tensors,
        plan.device_ids,
        plan.dispatches,
        0,
        Map::empty(),
        dispatch,
        shard,
        fragment,
    );
    let on = plan.dispatches[dispatch].shards[shard];
    let key = fragment_key(on.device_id, on.parameters[fragment]);
    let listing = ordered_listing::<AllocationKey, usize>(uses);
    lemma_ordered_listing_exists::<AllocationKey, usize>(uses);
    assert(lists_key(listing, key));
    let k = choose|k: int| 0 <= k < listing.len() && #[trigger] listing[k].0 == key;
    lemma_listed_at::<AllocationKey, usize>(listing, k);
    assert(used_allocations(uses)[k] == used_allocation(listing[k]));
    k
}

/// The plan of a phase.
pub open spec fn phase_plan(plans: VulkanDistributedExecutionPlanSetModel, phase: int) ->
    VulkanDistributedExecutionPlanModel {
    if phase == 0 {
        plans.decode
    } else if phase == 1 {
        plans.decode_batch
    } else {
        plans.prefill
    }
}

/// Every parameter fragment of every shard of every phase lies within one allocation of
/// the merged plan, and can be found there.
pub proof fn law_set_allocations_hold_every_fragment(
    plans: VulkanDistributedExecutionPlanSetModel,
    tensors: TensorIndexModel,
    phase: int,
    dispatch: int,
    shard: int,
    fragment: int,
) -> (place: int)
    requires
        set_parameters(plans, tensors) is Ok,
        all_allocations(
            seq![
                execution_parameters(plans.decode, tensors, true)->Ok_0,
                execution_parameters(plans.decode_batch, tensors, true)->Ok_0,
                execution_parameters(plans.prefill, tensors, true)->Ok_0,
            ],
        ).len() <= usize::MAX,
        0 <= phase < 3,
        0 <= dispatch < phase_plan(plans, phase).dispatches.len(),
        0 <= shard < phase_plan(plans, phase).dispatches[dispatch].shards.len(),
        0 <= fragment < phase_plan(
            plans,
            phase,
        ).dispatches[dispatch].shards[shard].parameters.len(),
    ensures
        0 <= place < set_parameters(plans, tensors)->Ok_0.allocations.len(),
        ({
            let on = phase_plan(plans, phase).dispatches[dispatch].shards[shard];
            let needed = on.parameters[fragment];
            let allocation = set_parameters(plans, tensors)->Ok_0.allocations[place];
            &&& allocation.device_id == on.device_id
            &&& allocation.tensor == needed.tensor
            &&& allocation.byte_offset <= needed.byte_offset
            &&& needed.byte_offset + needed.byte_count <= end_of(allocation)
        }),
{
    let decode = execution_parameters(plans.decode, tensors, true)->Ok_0;
    let decode_batch = execution_parameters(plans.decode_batch, tensors, true)->Ok_0;
    let prefill = execution_parameters(plans.prefill, tensors, true)->Ok_0;
    let merging = seq![decode, decode_batch, prefill];
    let own = law_planned_fragments_are_allocated(
        phase_plan(plans, phase),
        tensors,
        true,
        dispatch,
        shard,
        fragment,
    );
    lemma_three_plans(decode, decode_batch, prefill);
    let index = if phase == 0 {
        own
    } else if phase == 1 {
        decode.allocations.len() + own
    } else {
        decode.allocations.len() + decode_batch.allocations.len() + own
    };
    law_merged_plan_holds_every_allocation(merging, index);
    let merged = merged_plan(merging)->Ok_0.allocations;
    let held = all_allocations(merging)[index];
    let place = choose|i: int|
        0 <= i < merged.len() && contains_allocation(#[trigger] merged[i], held);
    place
}

proof fn lemma_three_plans(
    first: VulkanDistributedParameterAllocationPlanModel,
    second: VulkanDistributedParameterAllocationPlanModel,
    third: VulkanDistributedParameterAllocationPlanModel,
)
    ensures
        all_allocations(seq![first, second, third]) == first.allocations + second.allocations
            + third.allocations,
{
    let all = seq![first, second, third];
    let two = all.drop_last();
    let one = two.drop_last();
    assert(one.drop_last() =~= Seq::empty());
    assert(all_allocations(one.drop_last()) =~= Seq::empty());
    assert(all_allocations(one) =~= first.allocations);
    assert(all_allocations(two) =~= first.allocations + second.allocations);
}

/// The parameter bytes of a dispatch.
pub open spec fn bytes_of_dispatch() -> spec_fn(VulkanDistributedDispatchPlanModel) -> nat {
    |dispatch: VulkanDistributedDispatchPlanModel| dispatch.distributed_parameter_byte_count as nat
}

/// Every dispatch that was planned has shards that cover its rows, and the parameter
/// bytes are those of the dispatches.
pub open spec fn planned_soundly(found: PlanningModel) -> bool {
    &&& forall|i: int| 0 <= i < found.dispatches.len() ==> shards_tile(#[trigger] found.dispatches[i])
    &&& found.parameter_byte_count == sum_of(found.dispatches, bytes_of_dispatch())
}

/// The devices of every pool are named once.
pub open spec fn pools_are_distinct(pools: Map<Seq<char>, Seq<Seq<char>>>) -> bool {
    forall|component: Seq<char>| #[trigger]
        pools.contains_key(component) ==> pools[component].no_duplicates()
            && pools[component].len() <= usize::MAX
}

proof fn lemma_dispatches_planned(
    context: PlanningContextModel,
    owner_device_id: Seq<char>,
    dispatches: Seq<VulkanPreparedDispatchModel>,
    index: nat,
    found: PlanningModel,
)
    requires
        pools_are_distinct(context.pools),
        planned_soundly(found),
        index <= dispatches.len(),
        fold_from(dispatches, index, found, dispatch_step(context, owner_device_id)) is Ok,
    ensures
        planned_soundly(
            fold_from(dispatches, index, found, dispatch_step(context, owner_device_id))->Ok_0,
        ),
    decreases dispatches.len() - index,
{
    if index < dispatches.len() {
        let step = dispatch_step(context, owner_device_id);
        let dispatch = dispatches[index as int];
        let next = step(found, dispatch)->Ok_0;
        if next != found {
            let (contract, artifact) = selected_contract(
                dispatch,
                context.manifest,
                context.phase,
                context.shape,
            )->Ok_0->0;
            law_planned_shards_tile_the_rows(
                owner_device_id,
                dispatch,
                context.tensors,
                context.pools[dispatch.component_id],
                context.edges,
                artifact,
                contract,
                context.offset_alignment,
                context.resources,
            );
            assert(next.dispatches.drop_last() =~= found.dispatches);
        }
        lemma_dispatches_planned(context, owner_device_id, dispatches, index + 1, next);
    }
}

proof fn lemma_owners_planned(
    context: PlanningContextModel,
    plans: Seq<OwnedPlanModel>,
    index: nat,
    found: PlanningModel,
)
    requires
        pools_are_distinct(context.pools),
        planned_soundly(found),
        index <= plans.len(),
        fold_from(plans, index, found, owner_step(context)) is Ok,
    ensures
        planned_soundly(fold_from(plans, index, found, owner_step(context))->Ok_0),
    decreases plans.len() - index,
{
    if index < plans.len() {
        let owned = plans[index as int];
        lemma_dispatches_planned(context, owned.0, owned.1.dispatches, 0, found);
        lemma_owners_planned(context, plans, index + 1, owner_step(context)(found, owned)->Ok_0);
    }
}

proof fn lemma_pool_is_distinct(device_ids: Seq<Seq<char>>, index: nat)
    requires
        index <= device_ids.len(),
        device_pool_fault_from(device_ids, index) is None,
    ensures
        forall|i: int, j: int|
            index <= i < device_ids.len() && 0 <= j < i ==> device_ids[i] != device_ids[j],
    decreases device_ids.len() - index,
{
    if index < device_ids.len() {
        lemma_pool_is_distinct(device_ids, index + 1);
        assert forall|i: int, j: int|
            index <= i < device_ids.len() && 0 <= j < i implies device_ids[i] != device_ids[j] by {
            if i == index && device_ids[i] == device_ids[j] {
                assert(device_ids.take(index as int)[j] == device_ids[i]);
            }
        }
    }
}

proof fn lemma_pools_accepted(
    pools: Seq<(Seq<char>, Seq<Seq<char>>)>,
    index: nat,
    found: Set<Seq<char>>,
    place: int,
)
    requires
        index <= place < pools.len(),
        fold_from(pools, index, found, pool_step()) is Ok,
    ensures
        pools[place].1.no_duplicates(),
    decreases pools.len() - index,
{
    if index == place {
        lemma_pool_is_distinct(pools[place].1, 0);
    } else {
        lemma_pools_accepted(
            pools,
            index + 1,
            pool_step()(found, pools[index as int])->Ok_0,
            place,
        );
    }
}

proof fn lemma_rows_end_in_order(plan: VulkanDistributedDispatchPlanModel, shard: int)
    requires
        shards_tile(plan),
        0 <= shard < plan.shards.len(),
    ensures
        plan.shards[shard].row_start + plan.shards[shard].row_count <= plan.output_rows,
    decreases plan.shards.len() - shard,
{
    if shard + 1 < plan.shards.len() {
        lemma_rows_end_in_order(plan, shard + 1);
    }
}

proof fn lemma_group_member(
    groups: Seq<Seq<VulkanDistributedDispatchPlanModel>>,
    group: int,
    place: int,
)
    requires
        0 <= group < groups.len(),
        0 <= place < groups[group].len(),
    ensures
        flattened(groups).contains(groups[group][place]),
    decreases groups.len(),
{
    let before = flattened(groups.drop_last());
    if group == groups.len() - 1 {
        assert(flattened(groups)[before.len() + place] == groups[group][place]);
    } else {
        lemma_group_member(groups.drop_last(), group, place);
        let k = choose|k: int|
            0 <= k < before.len() && #[trigger] before[k] == groups[group][place];
        assert(flattened(groups)[k] == groups[group][place]);
    }
}

/// The shards of every dispatch of a built plan cover its rows, the parameter bytes of
/// the plan are those of its dispatches, and its islands are such that runners can be
/// made of them.
pub proof fn law_built_plans_tile_every_dispatch(
    plans: Seq<OwnedPlanModel>,
    context: PlanningContextModel,
)
    requires
        built_plan(plans, context) is Ok,
        context.pools.dom().finite(),
        forall|component: Seq<char>| #[trigger]
            context.pools.contains_key(component) ==> context.pools[component].len() <= usize::MAX,
    ensures
        ({
            let plan = built_plan(plans, context)->Ok_0;
            &&& forall|i: int|
                0 <= i < plan.dispatches.len() ==> shards_tile(#[trigger] plan.dispatches[i])
            &&& plan.distributed_parameter_byte_count == sum_of(
                plan.dispatches,
                bytes_of_dispatch(),
            )
            &&& islands_are_sound(plan)
        }),
{
    let plan = built_plan(plans, context)->Ok_0;
    let listing = ordered_listing::<String, Seq<Seq<char>>>(context.pools);
    lemma_ordered_listing_exists::<String, Seq<Seq<char>>>(context.pools);
    assert forall|component: Seq<char>| #[trigger]
        context.pools.contains_key(component) implies context.pools[component].no_duplicates() by {
        assert(lists_key(listing, component));
        let k = choose|k: int| 0 <= k < listing.len() && #[trigger] listing[k].0 == component;
        lemma_listed_at::<String, Seq<Seq<char>>>(listing, k);
        lemma_pools_accepted(listing, 0, Set::empty(), k);
    }
    lemma_owners_planned(context, plans, 0, nothing_planned());
    let route = VulkanSharedResidentBufferRoute::SharedHost;
    law_islands_partition_the_dispatches(plan.dispatches, route, context.phase);
    let islands = plan.execution_islands;
    let groups = Seq::new(islands.len(), |i: int| islands[i].dispatches);
    assert forall|i: int| 0 <= i < islands.len() implies (#[trigger] islands[i]).dispatches.len()
        > 0 && island_rows_fit(islands[i]) by {
        let island = islands[i];
        assert forall|d: int, s: int|
            #![trigger island.dispatches[d].shards[s]]
            0 <= d < island.dispatches.len() && 0 <= s < island.dispatches[d].shards.len()
            implies island.dispatches[d].shards[s].row_start
            + island.dispatches[d].shards[s].row_count <= usize::MAX by {
            lemma_group_member(groups, i, d);
            let k = choose|k: int|
                0 <= k < plan.dispatches.len() && #[trigger] plan.dispatches[k]
                    == island.dispatches[d];
            assert(shards_tile(plan.dispatches[k]));
            lemma_rows_end_in_order(island.dispatches[d], s);
        }
    }
}

} // verus!
