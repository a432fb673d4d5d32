//! Laws of the stages that make runners: what a stage names was made before, for the same
//! shard.
use vstd::prelude::*;

use crate::activation_building::dispatch_name;
use crate::execution_plans::{
    VulkanDistributedDispatchPlanModel, VulkanDistributedExecutionPlanModel,
    VulkanPhysicalExecutionIslandPlanModel,
};
use crate::resident::VulkanResidentBuffer;
use crate::runner_bindings::VulkanDistributedRunnerInputsModel;
use crate::runner_stages::{
    all_helper_stages, creation_stages, dispatch_stages_from, gate_count, gates_from,
    helper_stages, island_kernel, island_stages_from, request_makes, selector_gate,
    shard_opening, shard_stages_from, stage, stage_numbers, with_coordinator, with_gates,
    with_island_stages, with_shard_stages, VulkanDistributedDeviceRequestModel,
    VulkanDistributedRunnerStageModel, VulkanDistributedStageProduct,
};
use crate::text::debug_text;

verus! {

/// The stage with this number stands before another and makes something for the same
/// island, and for the same shard where that is asked.
pub open spec fn made_before(
    stages: Seq<VulkanDistributedRunnerStageModel>,
    index: int,
    number: usize,
    product: VulkanDistributedStageProduct,
    of_shard: bool,
) -> bool {
    &&& number < index
    &&& request_makes(stages[number as int].request, product)
    &&& stages[number as int].place.island == stages[index].place.island
    &&& of_shard ==> stages[number as int].place.shard == stages[index].place.shard
}

/// All of these were made before.
pub open spec fn all_made_before(
    stages: Seq<VulkanDistributedRunnerStageModel>,
    index: int,
    numbers: Seq<usize>,
    product: VulkanDistributedStageProduct,
    of_shard: bool,
) -> bool {
    forall|k: int|
        0 <= k < numbers.len() ==> made_before(
            stages,
            index,
            #[trigger] numbers[k],
            product,
            of_shard,
        )
}

/// What a stage names was made before: a recorded sequence is the one that was created for
/// the same shard on the same device, recorded with the steps that were prepared for the
/// shard; prepared steps are made of kernels and gates of the shard; a gate has a predicate
/// of the shard, and a coordinator the predicates of its island.
pub open spec fn names_its_own(stages: Seq<VulkanDistributedRunnerStageModel>, index: int) -> bool {
    let here = stages[index].place;
    match stages[index].request {
        VulkanDistributedDeviceRequestModel::RecordSequence { device_id, sequence, prepared } => {
            &&& sequence < index
            &&& prepared < index
            &&& stages[sequence as int].request == (
            VulkanDistributedDeviceRequestModel::CreateSequence { device_id })
            &&& stages[sequence as int].place == here
            &&& stages[prepared as int].request is PrepareSteps
            &&& stages[prepared as int].place == here
        },
        VulkanDistributedDeviceRequestModel::PrepareSteps { kernels, gates, .. } => {
            &&& all_made_before(
                stages,
                index,
                kernels,
                VulkanDistributedStageProduct::Kernel,
                true,
            )
            &&& all_made_before(stages, index, gates, VulkanDistributedStageProduct::Gate, true)
        },
        VulkanDistributedDeviceRequestModel::CreateGate { gate } => made_before(
            stages,
            index,
            gate.predicate,
            VulkanDistributedStageProduct::Predicate,
            true,
        ),
        VulkanDistributedDeviceRequestModel::CreateReduction { predicates, .. } =>
            all_made_before(
                stages,
                index,
                predicates,
                VulkanDistributedStageProduct::Predicate,
                false,
            ),
        VulkanDistributedDeviceRequestModel::CreateResidencyCommit { predicates, .. } =>
            all_made_before(
                stages,
                index,
                predicates,
                VulkanDistributedStageProduct::Predicate,
                false,
            ),
        _ => true,
    }
}

/// What any stage names was made before.
pub open spec fn all_name_their_own(stages: Seq<VulkanDistributedRunnerStageModel>) -> bool {
    forall|i: int| 0 <= i < stages.len() ==> #[trigger] names_its_own(stages, i)
}

proof fn lemma_pushed(
    stages: Seq<VulkanDistributedRunnerStageModel>,
    added: VulkanDistributedRunnerStageModel,
)
    requires
        all_name_their_own(stages),
        names_its_own(stages.push(added), stages.len() as int),
    ensures
        all_name_their_own(stages.push(added)),
{
    let grown = stages.push(added);
    assert forall|i: int| 0 <= i < grown.len() implies #[trigger] names_its_own(grown, i) by {
        if i < stages.len() {
            assert(names_its_own(stages, i));
            assert(grown[i] == stages[i]);
            lemma_kept_by_push(stages, added, i);
        }
    }
}

proof fn lemma_kept_by_push(
    stages: Seq<VulkanDistributedRunnerStageModel>,
    added: VulkanDistributedRunnerStageModel,
    index: int,
)
    requires
        0 <= index < stages.len(),
        names_its_own(stages, index),
    ensures
        names_its_own(stages.push(added), index),
{
    let grown = stages.push(added);
    assert(grown[index] == stages[index]);
    assert forall|numbers: Seq<usize>, product: VulkanDistributedStageProduct, of_shard: bool|
        all_made_before(stages, index, numbers, product, of_shard) implies #[trigger]
        all_made_before(grown, index, numbers, product, of_shard) by {
        assert forall|k: int| 0 <= k < numbers.len() implies made_before(
            grown,
            index,
            #[trigger] numbers[k],
            product,
            of_shard,
        ) by {
            assert(made_before(stages, index, numbers[k], product, of_shard));
        }
    }
}

proof fn lemma_numbered(
    stages: Seq<VulkanDistributedRunnerStageModel>,
    product: VulkanDistributedStageProduct,
    island: usize,
    shard: Option<usize>,
)
    requires
        stages.len() <= usize::MAX,
    ensures
        forall|k: int|
            #![trigger stage_numbers(stages, product, island, shard)[k]]
            0 <= k < stage_numbers(stages, product, island, shard).len() ==> ({
                let number = stage_numbers(stages, product, island, shard)[k] as int;
                &&& number < stages.len()
                &&& request_makes(stages[number].request, product)
                &&& stages[number].place.island == island
                &&& shard is Some ==> stages[number].place.shard == shard->0
            }),
    decreases stages.len(),
{
    if stages.len() > 0 {
        let rest = stages.drop_last();
        lemma_numbered(rest, product, island, shard);
        let earlier = stage_numbers(rest, product, island, shard);
        let numbers = stage_numbers(stages, product, island, shard);
        assert forall|k: int|
            #![trigger numbers[k]]
            0 <= k < numbers.len() implies ({
            let number = numbers[k] as int;
            &&& number < stages.len()
            &&& request_makes(stages[number].request, product)
            &&& stages[number].place.island == island
            &&& shard is Some ==> stages[number].place.shard == shard->0
        }) by {
            if k < earlier.len() {
                assert(numbers[k] == earlier[k]);
                assert(rest[earlier[k] as int] == stages[earlier[k] as int]);
            }
        }
    }
}

proof fn lemma_gates_name(
    inputs: VulkanDistributedRunnerInputsModel,
    island_index: nat,
    shard_index: nat,
    dispatch: VulkanDistributedDispatchPlanModel,
    device_id: Seq<char>,
    transaction_predicate: VulkanResidentBuffer,
    predicate: usize,
    index: nat,
    stages: Seq<VulkanDistributedRunnerStageModel>,
)
    requires
        predicate < stages.len(),
        stages[predicate as int].request is CreatePredicate,
        stages[predicate as int].place.island == island_index as usize,
        stages[predicate as int].place.shard == shard_index as usize,
        gates_from(
            inputs,
            island_index,
            shard_index,
            dispatch,
            device_id,
            transaction_predicate,
            predicate,
            index,
            stages,
        ) is Ok,
    ensures
        ({
            let after = gates_from(
                inputs,
                island_index,
                shard_index,
                dispatch,
                device_id,
                transaction_predicate,
                predicate,
                index,
                stages,
            )->Ok_0;
            &&& after.len() >= stages.len()
            &&& all_name_their_own(stages) ==> all_name_their_own(after)
        }),
    decreases dispatch.selected_resource_partitions.len() - index,
{
    if index < dispatch.selected_resource_partitions.len() {
        let gate = selector_gate(
            inputs,
            dispatch,
            device_id,
            index as int,
            transaction_predicate,
            predicate,
        )->Ok_0;
        let added = stage(
            island_index,
            shard_index,
            0,
            VulkanDistributedDeviceRequestModel::CreateGate { gate },
            ""@,
        );
        let grown = stages.push(added);
        assert(grown[predicate as int] == stages[predicate as int]);
        if all_name_their_own(stages) {
            assert(names_its_own(grown, stages.len() as int));
            lemma_pushed(stages, added);
        }
        lemma_gates_name(
            inputs,
            island_index,
            shard_index,
            dispatch,
            device_id,
            transaction_predicate,
            predicate,
            index + 1,
            grown,
        );
    }
}

proof fn lemma_dispatches_name(
    inputs: VulkanDistributedRunnerInputsModel,
    island: VulkanPhysicalExecutionIslandPlanModel,
    island_index: nat,
    shard_index: nat,
    index: nat,
    stages: Seq<VulkanDistributedRunnerStageModel>,
)
    requires
        dispatch_stages_from(inputs, island, island_index, shard_index, index, stages) is Ok,
    ensures
        ({
            let after = dispatch_stages_from(
                inputs,
                island,
                island_index,
                shard_index,
                index,
                stages,
            )->Ok_0;
            &&& after.len() >= stages.len()
            &&& all_name_their_own(stages) && after.len() <= usize::MAX ==> all_name_their_own(
                after,
            )
        }),
    decreases island.dispatches.len() - index,
{
    if index < island.dispatches.len() {
        let device_id = island.dispatches[0].shards[shard_index as int].device_id;
        let dispatch = island.dispatches[index as int];
        let kernel = island_kernel(inputs, island, shard_index, index as int)->Ok_0;
        let added = stage(
            island_index,
            shard_index,
            index,
            VulkanDistributedDeviceRequestModel::CreateDispatch { kernel },
            "failed to create distributed dispatch "@ + dispatch_name(dispatch) + " shard on "@
                + debug_text(device_id) + ": "@,
        );
        let created = stages.push(added);
        if all_name_their_own(stages) {
            assert(names_its_own(created, stages.len() as int));
            lemma_pushed(stages, added);
        }
        let gated = if index == 0 && gate_count(inputs, island, device_id) > 0 {
            with_gates(inputs, island_index, shard_index, dispatch, device_id, created)
        } else {
            Ok(created)
        };
        let next = gated->Ok_0;
        lemma_dispatches_name(inputs, island, island_index, shard_index, index + 1, next);
        if index == 0 && gate_count(inputs, island, device_id) > 0 {
            lemma_gating(inputs, island_index, shard_index, dispatch, device_id, created);
        }
    }
}

proof fn lemma_gates_grow(
    inputs: VulkanDistributedRunnerInputsModel,
    island_index: nat,
    shard_index: nat,
    dispatch: VulkanDistributedDispatchPlanModel,
    device_id: Seq<char>,
    transaction_predicate: VulkanResidentBuffer,
    predicate: usize,
    index: nat,
    stages: Seq<VulkanDistributedRunnerStageModel>,
)
    requires
        gates_from(
            inputs,
            island_index,
            shard_index,
            dispatch,
            device_id,
            transaction_predicate,
            predicate,
            index,
            stages,
        ) is Ok,
    ensures
        gates_from(
            inputs,
            island_index,
            shard_index,
            dispatch,
            device_id,
            transaction_predicate,
            predicate,
            index,
            stages,
        )->Ok_0.len() >= stages.len(),
    decreases dispatch.selected_resource_partitions.len() - index,
{
    if index < dispatch.selected_resource_partitions.len() {
        let gate = selector_gate(
            inputs,
            dispatch,
            device_id,
            index as int,
            transaction_predicate,
            predicate,
        )->Ok_0;
        lemma_gates_grow(
            inputs,
            island_index,
            shard_index,
            dispatch,
            device_id,
            transaction_predicate,
            predicate,
            index + 1,
            stages.push(
                stage(
                    island_index,
                    shard_index,
                    0,
                    VulkanDistributedDeviceRequestModel::CreateGate { gate },
                    ""@,
                ),
            ),
        );
    }
}

proof fn lemma_gating(
    inputs: VulkanDistributedRunnerInputsModel,
    island_index: nat,
    shard_index: nat,
    dispatch: VulkanDistributedDispatchPlanModel,
    device_id: Seq<char>,
    stages: Seq<VulkanDistributedRunnerStageModel>,
)
    requires
        with_gates(inputs, island_index, shard_index, dispatch, device_id, stages) is Ok,
    ensures
        ({
            let after = with_gates(
                inputs,
                island_index,
                shard_index,
                dispatch,
                device_id,
                stages,
            )->Ok_0;
            &&& after.len() >= stages.len()
            &&& all_name_their_own(stages) && after.len() <= usize::MAX ==> all_name_their_own(
                after,
            )
        }),
{
    let predicates = stage_numbers(
        stages,
        VulkanDistributedStageProduct::Predicate,
        island_index as usize,
        Some(shard_index as usize),
    );
    let transaction_predicate = inputs.transaction_predicates->0[device_id];
    lemma_gates_grow(
        inputs,
        island_index,
        shard_index,
        dispatch,
        device_id,
        transaction_predicate,
        predicates.last(),
        0,
        stages,
    );
    if stages.len() <= usize::MAX {
        lemma_numbered(
            stages,
            VulkanDistributedStageProduct::Predicate,
            island_index as usize,
            Some(shard_index as usize),
        );
        let predicate = predicates[predicates.len() - 1];
        lemma_gates_name(
            inputs,
            island_index,
            shard_index,
            dispatch,
            device_id,
            transaction_predicate,
            predicate,
            0,
            stages,
        );
    }
}

/// The stage names nothing.
pub open spec fn names_nothing(added: VulkanDistributedRunnerStageModel) -> bool {
    added.request is ResolveDevice || added.request is CreatePredicate || added.request
        is Synchronize || added.request is CreateSequence
}

proof fn lemma_plain_joined(
    stages: Seq<VulkanDistributedRunnerStageModel>,
    added: Seq<VulkanDistributedRunnerStageModel>,
)
    requires
        all_name_their_own(stages),
        forall|i: int| 0 <= i < added.len() ==> names_nothing(#[trigger] added[i]),
    ensures
        all_name_their_own(stages + added),
    decreases added.len(),
{
    if added.len() == 0 {
        assert(stages + added =~= stages);
    } else {
        let rest = added.drop_last();
        assert forall|i: int| 0 <= i < rest.len() implies names_nothing(#[trigger] rest[i]) by {
            assert(rest[i] == added[i]);
        }
        lemma_plain_joined(stages, rest);
        assert(names_nothing(added[added.len() - 1]));
        assert(names_its_own((stages + rest).push(added.last()), (stages + rest).len() as int));
        lemma_pushed(stages + rest, added.last());
        assert((stages + rest).push(added.last()) =~= stages + added);
    }
}

proof fn lemma_shard_names(
    inputs: VulkanDistributedRunnerInputsModel,
    island: VulkanPhysicalExecutionIslandPlanModel,
    island_index: nat,
    shard_index: nat,
    stages: Seq<VulkanDistributedRunnerStageModel>,
)
    requires
        with_shard_stages(inputs, island, island_index, shard_index, stages) is Ok,
    ensures
        ({
            let after = with_shard_stages(
                inputs,
                island,
                island_index,
                shard_index,
                stages,
            )->Ok_0;
            &&& after.len() >= stages.len()
            &&& all_name_their_own(stages) && after.len() <= usize::MAX ==> all_name_their_own(
                after,
            )
        }),
{
    let opening = shard_opening(inputs, island, island_index, shard_index);
    let opened = stages + opening;
    lemma_dispatches_name(inputs, island, island_index, shard_index, 0, opened);
    let dispatched = dispatch_stages_from(
        inputs,
        island,
        island_index,
        shard_index,
        0,
        opened,
    )->Ok_0;
    let after = with_shard_stages(inputs, island, island_index, shard_index, stages)->Ok_0;
    if all_name_their_own(stages) && after.len() <= usize::MAX {
        assert forall|i: int| 0 <= i < opening.len() implies names_nothing(
            #[trigger] opening[i],
        ) by {}
        lemma_plain_joined(stages, opening);
        let first = dispatched.len() as int;
        let sequenced = dispatched.push(after[first]);
        let prepared = sequenced.push(after[first + 1]);
        let recorded = prepared.push(after[first + 2]);
        assert(recorded =~= after);
        assert(names_its_own(sequenced, first));
        lemma_pushed(dispatched, after[first]);
        lemma_numbered(
            sequenced,
            VulkanDistributedStageProduct::Kernel,
            island_index as usize,
            Some(shard_index as usize),
        );
        lemma_numbered(
            sequenced,
            VulkanDistributedStageProduct::Gate,
            island_index as usize,
            Some(shard_index as usize),
        );
        let kernels = stage_numbers(
            sequenced,
            VulkanDistributedStageProduct::Kernel,
            island_index as usize,
            Some(shard_index as usize),
        );
        let gates = stage_numbers(
            sequenced,
            VulkanDistributedStageProduct::Gate,
            island_index as usize,
            Some(shard_index as usize),
        );
        assert forall|k: int| 0 <= k < kernels.len() implies made_before(
            prepared,
            first + 1,
            #[trigger] kernels[k],
            VulkanDistributedStageProduct::Kernel,
            true,
        ) by {
            assert(prepared[kernels[k] as int] == sequenced[kernels[k] as int]);
        }
        assert forall|k: int| 0 <= k < gates.len() implies made_before(
            prepared,
            first + 1,
            #[trigger] gates[k],
            VulkanDistributedStageProduct::Gate,
            true,
        ) by {
            assert(prepared[gates[k] as int] == sequenced[gates[k] as int]);
        }
        assert(names_its_own(prepared, first + 1));
        lemma_pushed(sequenced, after[first + 1]);
        assert(recorded[first] == after[first]);
        assert(recorded[first + 1] == after[first + 1]);
        assert(names_its_own(recorded, first + 2));
        lemma_pushed(prepared, after[first + 2]);
    }
}

proof fn lemma_shards_name(
    inputs: VulkanDistributedRunnerInputsModel,
    island: VulkanPhysicalExecutionIslandPlanModel,
    island_index: nat,
    index: nat,
    stages: Seq<VulkanDistributedRunnerStageModel>,
    count: usize,
)
    requires
        shard_stages_from(inputs, island, island_index, index, stages, count) is Ok,
    ensures
        ({
            let after = shard_stages_from(
                inputs,
                island,
                island_index,
                index,
                stages,
                count,
            )->Ok_0.0;
            &&& after.len() >= stages.len()
            &&& all_name_their_own(stages) && after.len() <= usize::MAX ==> all_name_their_own(
                after,
            )
        }),
    decreases island.dispatches[0].shards.len() - index,
{
    if index < island.dispatches[0].shards.len() {
        lemma_shard_names(inputs, island, island_index, index, stages);
        let next = with_shard_stages(inputs, island, island_index, index, stages)->Ok_0;
        lemma_shards_name(
            inputs,
            island,
            island_index,
            index + 1,
            next,
            (count + island.dispatches.len()) as usize,
        );
    }
}

proof fn lemma_helpers_name_nothing(
    island: VulkanPhysicalExecutionIslandPlanModel,
    island_index: nat,
    count: nat,
)
    ensures
        forall|i: int|
            0 <= i < all_helper_stages(island, island_index, count).len() ==> names_nothing(
                #[trigger] all_helper_stages(island, island_index, count)[i],
            ),
    decreases count,
{
    if count > 0 {
        let before = (count - 1) as nat;
        lemma_helpers_name_nothing(island, island_index, before);
        let earlier = all_helper_stages(island, island_index, before);
        let own = helper_stages(island, island_index, before);
        let all = all_helper_stages(island, island_index, count);
        assert forall|i: int| 0 <= i < all.len() implies names_nothing(#[trigger] all[i]) by {
            if i < earlier.len() {
                assert(all[i] == earlier[i]);
            } else {
                assert(all[i] == own[i - earlier.len()]);
            }
        }
    }
}

proof fn lemma_island_names(
    inputs: VulkanDistributedRunnerInputsModel,
    island: VulkanPhysicalExecutionIslandPlanModel,
    island_index: nat,
    stages: Seq<VulkanDistributedRunnerStageModel>,
    count: usize,
)
    requires
        with_island_stages(inputs, island, island_index, stages, count) is Ok,
    ensures
        ({
            let after = with_island_stages(inputs, island, island_index, stages, count)->Ok_0.0;
            &&& after.len() >= stages.len()
            &&& all_name_their_own(stages) && after.len() <= usize::MAX ==> all_name_their_own(
                after,
            )
        }),
{
    let first = stage(
        island_index,
        0,
        0,
        VulkanDistributedDeviceRequestModel::ResolveDevice { device_id: island.owner_device_id },
        "failed to resolve distributed owner device "@ + debug_text(island.owner_device_id)
            + ": "@,
    );
    let opened = stages.push(first);
    lemma_shards_name(inputs, island, island_index, 0, opened, count);
    let sharded = shard_stages_from(inputs, island, island_index, 0, opened, count)->Ok_0.0;
    let helpers = all_helper_stages(island, island_index, island.dispatches[0].shards.len());
    let joined = sharded + helpers;
    let after = with_coordinator(inputs, island, island_index, joined)->Ok_0;
    assert(after.len() >= joined.len());
    if all_name_their_own(stages) && after.len() <= usize::MAX {
        assert(names_its_own(opened, stages.len() as int));
        lemma_pushed(stages, first);
        lemma_helpers_name_nothing(island, island_index, island.dispatches[0].shards.len());
        lemma_plain_joined(sharded, helpers);
        if after.len() > joined.len() {
            let last = joined.len() as int;
            let predicates = stage_numbers(
                joined,
                VulkanDistributedStageProduct::Predicate,
                island_index as usize,
                None,
            );
            lemma_numbered(
                joined,
                VulkanDistributedStageProduct::Predicate,
                island_index as usize,
                None,
            );
            assert(after =~= joined.push(after[last]));
            assert forall|k: int| 0 <= k < predicates.len() implies made_before(
                after,
                last,
                #[trigger] predicates[k],
                VulkanDistributedStageProduct::Predicate,
                false,
            ) by {
                assert(after[predicates[k] as int] == joined[predicates[k] as int]);
            }
            assert(names_its_own(after, last));
            lemma_pushed(joined, after[last]);
        } else {
            assert(after =~= joined);
        }
    }
}

proof fn lemma_islands_name(
    inputs: VulkanDistributedRunnerInputsModel,
    islands: Seq<VulkanPhysicalExecutionIslandPlanModel>,
    index: nat,
    stages: Seq<VulkanDistributedRunnerStageModel>,
    count: usize,
)
    requires
        island_stages_from(inputs, islands, index, stages, count) is Ok,
    ensures
        ({
            let after = island_stages_from(inputs, islands, index, stages, count)->Ok_0.0;
            &&& after.len() >= stages.len()
            &&& all_name_their_own(stages) && after.len() <= usize::MAX ==> all_name_their_own(
                after,
            )
        }),
    decreases islands.len() - index,
{
    if index < islands.len() {
        lemma_island_names(inputs, islands[index as int], index, stages, count);
        let next = with_island_stages(
            inputs,
            islands[index as int],
            index,
            stages,
            count,
        )->Ok_0;
        lemma_islands_name(inputs, islands, index + 1, next.0, next.1);
    }
}

/// Whatever a stage of the creation of runners names was made by an earlier stage for the
/// same shard, so every shard records the sequence that was created for it, with its own
/// kernels and gates, and every gate has the predicate of its shard.
pub proof fn law_stages_name_what_was_made_for_them(
    inputs: VulkanDistributedRunnerInputsModel,
    plan: VulkanDistributedExecutionPlanModel,
)
    requires
        creation_stages(inputs, plan) is Ok,
        creation_stages(inputs, plan)->Ok_0.0.len() <= usize::MAX,
    ensures
        all_name_their_own(creation_stages(inputs, plan)->Ok_0.0),
{
    lemma_islands_name(inputs, plan.execution_islands, 0, Seq::empty(), 0);
}

} // verus!
