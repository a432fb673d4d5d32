//! Laws of recovering from missing resources, and of preparing shards for feedback.
use vstd::prelude::*;

use crate::dispatch_runners::{
    VulkanDistributedDispatchRunnerModel, VulkanDistributedDispatchShardRunnerModel,
};
use crate::dispatch_shards::VulkanDistributedDispatchShardModel;
use crate::execution_plans::{
    VulkanDistributedDispatchPlanModel, VulkanDistributedDispatchSequenceKind,
};
use crate::ordered::{
    lemma_listed_at, lemma_ordered_listing_exists, lists_key, ordered_listing, ordered_values,
};
use crate::resident::VulkanResidentBuffer;
use crate::runner_execution::{
    shard_sequence, VulkanDistributedExecutionRequestModel, VulkanDistributedExecutionStageModel,
};
use crate::runner_feedback::{
    feedback_constants_from, feedback_handles, feedback_steps, feedback_steps_from,
    gate_feedback_steps, shard_feedback_handles, VulkanDistributedFeedbackStepModel,
};
use crate::runner_recovery::{
    check_stages, flat_gates, is_affected, plain_stage, recovery_plan, rerun_stages_from,
    residency_gates, resolved_misses, restore_stages, shard_residency_gates, MissReply,
    ResidencyGateModel, VulkanDistributedResolvedResidencyMissModel,
};
use crate::sequences::distinct;
use crate::submission_laws::{is_coordinated, runs_after_shards, runs_sequence};

verus! {

/// Some gate of a shard found something missing.
pub open spec fn misses_something(
    misses: Seq<VulkanDistributedResolvedResidencyMissModel>,
    shard: int,
) -> bool {
    exists|m: int| 0 <= m < misses.len() && (#[trigger] misses[m]).shard_index == shard
}

/// A stage runs what a shard runs for a kind, and the stages behind it compare every gate of
/// the shard in turn.
pub open spec fn reruns_at(
    stages: Seq<VulkanDistributedExecutionStageModel>,
    place: int,
    shard: VulkanDistributedDispatchShardRunnerModel,
    kind: VulkanDistributedDispatchSequenceKind,
) -> bool {
    let gates = flat_gates(shard.selected_resource_gates);
    &&& 0 <= place
    &&& place + gates.len() < stages.len()
    &&& stages[place].request is Run
    &&& stages[place].request->Run_device_id == shard.device_id
    &&& runs_sequence(shard, kind, stages[place].request->Run_sequence)
    &&& forall|g: int|
        0 <= g < gates.len() ==> (#[trigger] stages[place + 1 + g]).request == (
        VulkanDistributedExecutionRequestModel::CompareEpochs {
            device_id: shard.device_id,
            gate: gates[g],
        })
}

/// A shard is run again from some stage on.
pub open spec fn is_rerun(
    stages: Seq<VulkanDistributedExecutionStageModel>,
    start: int,
    shard: VulkanDistributedDispatchShardRunnerModel,
    kind: VulkanDistributedDispatchSequenceKind,
) -> bool {
    exists|place: int| start <= place && #[trigger] reruns_at(stages, place, shard, kind)
}

/// A stage runs one of the shards that miss something.
pub open spec fn runs_affected(
    runner: VulkanDistributedDispatchRunnerModel,
    misses: Seq<VulkanDistributedResolvedResidencyMissModel>,
    kind: VulkanDistributedDispatchSequenceKind,
    request: VulkanDistributedExecutionRequestModel,
) -> bool {
    exists|s: int|
        0 <= s < runner.shards.len() && misses_something(misses, s) && request->Run_device_id == (
        #[trigger] runner.shards[s]).device_id && runs_sequence(
            runner.shards[s],
            kind,
            request->Run_sequence,
        )
}

proof fn lemma_reruns(
    runner: VulkanDistributedDispatchRunnerModel,
    misses: Seq<VulkanDistributedResolvedResidencyMissModel>,
    kind: VulkanDistributedDispatchSequenceKind,
    index: nat,
    stages: Seq<VulkanDistributedExecutionStageModel>,
)
    requires
        index <= runner.shards.len(),
        rerun_stages_from(runner, misses, kind, index, stages) is Ok,
    ensures
        ({
            let all = rerun_stages_from(runner, misses, kind, index, stages)->Ok_0;
            &&& all.len() >= stages.len()
            &&& forall|k: int| 0 <= k < stages.len() ==> #[trigger] all[k] == stages[k]
            &&& forall|s: int|
                index <= s < runner.shards.len() && misses_something(misses, s) ==> is_rerun(
                    all,
                    stages.len() as int,
                    #[trigger] runner.shards[s],
                    kind,
                )
            &&& forall|k: int|
                stages.len() <= k < all.len() ==> {
                    let request = (#[trigger] all[k]).request;
                    request is CompareEpochs || request is Run && runs_affected(
                        runner,
                        misses,
                        kind,
                        request,
                    )
                }
        }),
    decreases runner.shards.len() - index,
{
    if index < runner.shards.len() {
        let shard = runner.shards[index as int];
        assert(is_affected(misses, index) <==> misses_something(misses, index as int));
        if !is_affected(misses, index) {
            lemma_reruns(runner, misses, kind, index + 1, stages);
        } else {
            let sequence = shard_sequence(shard, kind)->Ok_0;
            let run = plain_stage(
                VulkanDistributedExecutionRequestModel::Run {
                    device_id: shard.device_id,
                    sequence,
                },
            );
            let grown = stages.push(run) + check_stages(shard);
            let gates = flat_gates(shard.selected_resource_gates);
            lemma_reruns(runner, misses, kind, index + 1, grown);
            let all = rerun_stages_from(runner, misses, kind, index + 1, grown)->Ok_0;
            let place = stages.len() as int;
            assert(all[place] == grown[place]);
            assert(grown[place] == run);
            assert forall|g: int| 0 <= g < gates.len() implies (
            #[trigger] all[place + 1 + g]).request == (
            VulkanDistributedExecutionRequestModel::CompareEpochs {
                device_id: shard.device_id,
                gate: gates[g],
            }) by {
                assert(all[place + 1 + g] == grown[place + 1 + g]);
                assert(grown[place + 1 + g] == check_stages(shard)[g]);
            }
            assert(reruns_at(all, place, shard, kind));
            assert forall|s: int|
                index <= s < runner.shards.len() && misses_something(misses, s) implies is_rerun(
                all,
                stages.len() as int,
                #[trigger] runner.shards[s],
                kind,
            ) by {
                if s > index {
                    let p = choose|p: int|
                        grown.len() <= p && #[trigger] reruns_at(all, p, runner.shards[s], kind);
                    assert(reruns_at(all, p, runner.shards[s], kind));
                }
            }
            assert forall|k: int| stages.len() <= k < all.len() implies {
                let request = (#[trigger] all[k]).request;
                request is CompareEpochs || request is Run && runs_affected(
                    runner,
                    misses,
                    kind,
                    request,
                )
            } by {
                if k < grown.len() {
                    assert(all[k] == grown[k]);
                    if k == place {
                        assert(runs_affected(runner, misses, kind, run.request));
                    } else {
                        assert(grown[k] == check_stages(shard)[k - place - 1]);
                    }
                }
            }
            assert forall|k: int| 0 <= k < stages.len() implies #[trigger] all[k] == stages[k] by {
                assert(all[k] == grown[k]);
            }
        }
    }
}

proof fn lemma_distinct_listed<T>(items: Seq<T>, item: T)
    ensures
        distinct(items).contains(item) <==> items.contains(item),
        distinct(items).no_duplicates(),
    decreases items.len(),
{
    if items.len() > 0 {
        let rest = items.drop_last();
        lemma_distinct_listed(rest, item);
        lemma_distinct_listed(rest, items.last());
        if rest.contains(item) {
            let k = choose|k: int| 0 <= k < rest.len() && rest[k] == item;
            assert(items[k] == item);
        }
        if items.contains(item) && !rest.contains(item) {
            let k = choose|k: int| 0 <= k < items.len() && items[k] == item;
            if k < rest.len() {
                assert(rest[k] == item);
            }
        }
        let grown = distinct(rest).push(items.last());
        if distinct(rest).contains(item) {
            let k = choose|k: int| 0 <= k < distinct(rest).len() && distinct(rest)[k] == item;
            assert(grown[k] == item);
        }
        if items.last() == item {
            assert(items[items.len() - 1] == item);
            assert(grown[grown.len() - 1] == item);
        }
        if grown.contains(item) && items.last() != item {
            let k = choose|k: int| 0 <= k < grown.len() && grown[k] == item;
            assert(distinct(rest)[k] == item);
        }
    }
}

/// A recovery first lets every predicate of the transaction pass again, each buffer once;
/// then it runs every shard again that missed something, and no other, and compares the
/// gates of each behind it; last the owner runs again what it runs after the shards.
pub proof fn law_recoveries_rerun_what_missed(
    predicates: Map<Seq<char>, VulkanResidentBuffer>,
    runner: VulkanDistributedDispatchRunnerModel,
    misses: Seq<VulkanDistributedResolvedResidencyMissModel>,
    kind: VulkanDistributedDispatchSequenceKind,
) -> (restored: int)
    requires
        predicates.dom().finite(),
        recovery_plan(predicates, runner, misses, kind) is Ok,
    ensures
        ({
            let stages = recovery_plan(predicates, runner, misses, kind)->Ok_0;
            let end = if is_coordinated(runner) {
                stages.len() - 2
            } else {
                stages.len() as int
            };
            &&& 0 <= restored <= end
            &&& forall|k: int|
                0 <= k < restored ==> (#[trigger] stages[k]).request is RestorePredicate
                    && stages[k].request->RestorePredicate_value == 1
                    && predicates.contains_value(stages[k].request->RestorePredicate_buffer)
            &&& forall|device_id: Seq<char>| #[trigger]
                predicates.contains_key(device_id) ==> is_restored(
                    stages,
                    restored,
                    predicates[device_id],
                )
            &&& forall|j: int, k: int|
                #![trigger stages[j], stages[k]]
                0 <= j < k < restored ==> stages[j].request->RestorePredicate_buffer
                    != stages[k].request->RestorePredicate_buffer
            &&& forall|s: int|
                0 <= s < runner.shards.len() && misses_something(misses, s) ==> is_rerun(
                    stages,
                    restored,
                    #[trigger] runner.shards[s],
                    kind,
                )
            &&& forall|k: int|
                restored <= k < end ==> {
                    let request = (#[trigger] stages[k]).request;
                    request is CompareEpochs || request is Run && runs_affected(
                        runner,
                        misses,
                        kind,
                        request,
                    )
                }
            &&& is_coordinated(runner) ==> {
                let last = stages[stages.len() - 1].request;
                &&& stages[stages.len() - 2].request == (
                VulkanDistributedExecutionRequestModel::ResolveDevice {
                    device_id: runner.planned.owner_device_id,
                })
                &&& last is Run
                &&& last->Run_device_id == runner.planned.owner_device_id
                &&& runs_after_shards(runner, last->Run_sequence)
            }
        }),
{
    let first = restore_stages(predicates);
    let listing = ordered_listing::<String, VulkanResidentBuffer>(predicates);
    let values = ordered_values::<String, VulkanResidentBuffer>(predicates);
    let buffers = distinct(values);
    lemma_ordered_listing_exists::<String, VulkanResidentBuffer>(predicates);
    lemma_reruns(runner, misses, kind, 0, first);
    let reruns = rerun_stages_from(runner, misses, kind, 0, first)->Ok_0;
    let stages = recovery_plan(predicates, runner, misses, kind)->Ok_0;
    let restored = first.len() as int;
    assert(forall|k: int| 0 <= k < reruns.len() ==> #[trigger] stages[k] == reruns[k]);
    assert(first.len() == buffers.len());
    assert forall|k: int| 0 <= k < restored implies (
    #[trigger] stages[k]).request is RestorePredicate
        && stages[k].request->RestorePredicate_value == 1 && predicates.contains_value(
        stages[k].request->RestorePredicate_buffer,
    ) && stages[k].request->RestorePredicate_buffer == buffers[k] by {
        assert(stages[k] == reruns[k]);
        assert(reruns[k] == first[k]);
        lemma_distinct_listed(values, buffers[k]);
        assert(buffers.contains(buffers[k]));
        let v = choose|v: int| 0 <= v < values.len() && values[v] == buffers[k];
        lemma_listed_at::<String, VulkanResidentBuffer>(listing, v);
        assert(predicates.contains_key(listing[v].0));
        assert(predicates[listing[v].0] == buffers[k]);
    }
    assert forall|device_id: Seq<char>| #[trigger]
        predicates.contains_key(device_id) implies is_restored(
        stages,
        restored,
        predicates[device_id],
    ) by {
        assert(lists_key(listing, device_id));
        let v = choose|v: int| 0 <= v < listing.len() && #[trigger] listing[v].0 == device_id;
        lemma_listed_at::<String, VulkanResidentBuffer>(listing, v);
        assert(values[v] == predicates[device_id]);
        lemma_distinct_listed(values, predicates[device_id]);
        let k = choose|k: int| 0 <= k < buffers.len() && buffers[k] == predicates[device_id];
        assert(stages[k].request->RestorePredicate_buffer == buffers[k]);
    }
    assert forall|s: int|
        0 <= s < runner.shards.len() && misses_something(misses, s) implies is_rerun(
        stages,
        restored,
        #[trigger] runner.shards[s],
        kind,
    ) by {
        assert(is_rerun(reruns, restored, runner.shards[s], kind));
        let place = choose|place: int|
            restored <= place && #[trigger] reruns_at(reruns, place, runner.shards[s], kind);
        let gates = flat_gates(runner.shards[s].selected_resource_gates);
        assert(stages[place] == reruns[place]);
        assert forall|g: int| 0 <= g < gates.len() implies (
        #[trigger] stages[place + 1 + g]).request == (
        VulkanDistributedExecutionRequestModel::CompareEpochs {
            device_id: runner.shards[s].device_id,
            gate: gates[g],
        }) by {
            assert(stages[place + 1 + g] == reruns[place + 1 + g]);
        }
        assert(reruns_at(stages, place, runner.shards[s], kind));
    }
    if buffers.len() > 0 {
        lemma_distinct_listed(values, buffers[0]);
    }
    restored
}

/// Some of the first stages lets a predicate pass again.
pub open spec fn is_restored(
    stages: Seq<VulkanDistributedExecutionStageModel>,
    count: int,
    buffer: VulkanResidentBuffer,
) -> bool {
    exists|k: int|
        0 <= k < count && (#[trigger] stages[k]).request->RestorePredicate_buffer == buffer
}

/// The gates of a shard are all gates of its dispatches, one dispatch after another.
pub proof fn law_gates_of_shards_are_those_of_their_dispatches(gates: Seq<Seq<u64>>)
    ensures
        forall|d: int, g: int|
            #![trigger gates[d][g]]
            0 <= d < gates.len() && 0 <= g < gates[d].len() ==> flat_gates(gates).contains(
                gates[d][g],
            ),
        forall|k: int|
            0 <= k < flat_gates(gates).len() ==> is_gate_of_some(
                gates,
                #[trigger] flat_gates(gates)[k],
            ),
    decreases gates.len(),
{
    if gates.len() > 0 {
        let rest = gates.drop_last();
        let earlier = flat_gates(rest);
        let all = flat_gates(gates);
        law_gates_of_shards_are_those_of_their_dispatches(rest);
        assert forall|d: int, g: int|
            #![trigger gates[d][g]]
            0 <= d < gates.len() && 0 <= g < gates[d].len() implies all.contains(gates[d][g]) by {
            if d < rest.len() {
                assert(rest[d][g] == gates[d][g]);
                let k = choose|k: int| 0 <= k < earlier.len() && earlier[k] == gates[d][g];
                assert(all[k] == gates[d][g]);
            } else {
                assert(all[earlier.len() + g] == gates[d][g]);
            }
        }
        assert forall|k: int| 0 <= k < all.len() implies is_gate_of_some(
            gates,
            #[trigger] all[k],
        ) by {
            if k < earlier.len() {
                assert(is_gate_of_some(rest, earlier[k]));
                let (d, g) = choose|d: int, g: int|
                    #![trigger rest[d][g]]
                    0 <= d < rest.len() && 0 <= g < rest[d].len() && rest[d][g] == earlier[k];
                assert(gates[d][g] == all[k]);
            } else {
                let last = gates.len() - 1;
                assert(gates[last][k - earlier.len()] == all[k]);
            }
        }
    }
}

/// A gate is one of some dispatch.
pub open spec fn is_gate_of_some(gates: Seq<Seq<u64>>, gate: u64) -> bool {
    exists|d: int, g: int|
        #![trigger gates[d][g]]
        0 <= d < gates.len() && 0 <= g < gates[d].len() && gates[d][g] == gate
}

/// A gate of a list is the one of a shard at a place, on the device of the shard.
pub open spec fn is_gate_at(
    shards: Seq<VulkanDistributedDispatchShardRunnerModel>,
    shard: int,
    place: int,
    gate: ResidencyGateModel,
) -> bool {
    let gates = flat_gates(shards[shard].selected_resource_gates);
    &&& 0 <= shard < shards.len()
    &&& 0 <= place < gates.len()
    &&& gate.shard_index == shard
    &&& gate.gate_index == place
    &&& gate.device_id == shards[shard].device_id
    &&& gate.gate == gates[place]
}

/// The shard at a place has a gate at a place.
pub open spec fn has_gate(
    shards: Seq<VulkanDistributedDispatchShardRunnerModel>,
    shard: int,
    gate: int,
) -> bool {
    0 <= shard < shards.len() && 0 <= gate < flat_gates(
        shards[shard].selected_resource_gates,
    ).len()
}

/// The gates that are asked are those of every shard, on its device: each gate of a shard is
/// asked, and each that is asked is one of a shard, with its place.
pub proof fn law_every_gate_is_asked(shards: Seq<VulkanDistributedDispatchShardRunnerModel>)
    requires
        shards.len() <= usize::MAX,
        forall|s: int|
            0 <= s < shards.len() ==> flat_gates(
                (#[trigger] shards[s]).selected_resource_gates,
            ).len() <= usize::MAX,
    ensures
        forall|s: int, g: int| #[trigger]
            has_gate(shards, s, g) ==> is_asked_at(shards, residency_gates(shards), s, g),
        forall|k: int|
            0 <= k < residency_gates(shards).len() ==> {
                let gate = #[trigger] residency_gates(shards)[k];
                is_gate_at(shards, gate.shard_index as int, gate.gate_index as int, gate)
            },
    decreases shards.len(),
{
    if shards.len() > 0 {
        let rest = shards.drop_last();
        let last = shards.len() - 1;
        assert forall|s: int| 0 <= s < rest.len() implies flat_gates(
            (#[trigger] rest[s]).selected_resource_gates,
        ).len() <= usize::MAX by {
            assert(rest[s] == shards[s]);
        }
        law_every_gate_is_asked(rest);
        let earlier = residency_gates(rest);
        let own = shard_residency_gates(shards.last(), last as nat);
        let all = residency_gates(shards);
        assert forall|s: int, g: int| #[trigger] has_gate(shards, s, g) implies is_asked_at(
            shards,
            all,
            s,
            g,
        ) by {
            if s < last {
                assert(rest[s] == shards[s]);
                assert(has_gate(rest, s, g));
                assert(is_asked_at(rest, earlier, s, g));
                let k = choose|k: int|
                    0 <= k < earlier.len() && is_gate_at(rest, s, g, #[trigger] earlier[k]);
                assert(all[k] == earlier[k]);
                assert(is_gate_at(shards, s, g, all[k]));
            } else {
                assert(all[earlier.len() + g] == own[g]);
                assert(is_gate_at(shards, s, g, all[earlier.len() + g]));
            }
        }
        assert forall|k: int| 0 <= k < all.len() implies {
            let gate = #[trigger] all[k];
            is_gate_at(shards, gate.shard_index as int, gate.gate_index as int, gate)
        } by {
            if k < earlier.len() {
                assert(all[k] == earlier[k]);
                let gate = earlier[k];
                assert(rest[gate.shard_index as int] == shards[gate.shard_index as int]);
            } else {
                assert(all[k] == own[k - earlier.len()]);
            }
        }
    }
}

/// Some gate of a list is the one of a shard at a place.
pub open spec fn is_asked_at(
    shards: Seq<VulkanDistributedDispatchShardRunnerModel>,
    gates: Seq<ResidencyGateModel>,
    shard: int,
    place: int,
) -> bool {
    exists|k: int| 0 <= k < gates.len() && is_gate_at(shards, shard, place, #[trigger] gates[k])
}

/// A miss is what a gate answered.
pub open spec fn is_answer_of(
    gate: ResidencyGateModel,
    reply: MissReply,
    miss: VulkanDistributedResolvedResidencyMissModel,
) -> bool {
    &&& reply is Some
    &&& miss.shard_index == gate.shard_index
    &&& miss.gate_index == gate.gate_index
    &&& miss.selector_id == reply->0.deep_view().selector_id
    &&& miss.checkpoint_tag == reply->0.deep_view().checkpoint_tag
    &&& miss.resource_indices == reply->0.deep_view().resource_indices
}

/// Some miss of a list is what a gate answered.
pub open spec fn is_missed(
    misses: Seq<VulkanDistributedResolvedResidencyMissModel>,
    gate: ResidencyGateModel,
    reply: MissReply,
) -> bool {
    exists|m: int| 0 <= m < misses.len() && is_answer_of(gate, reply, #[trigger] misses[m])
}

/// Some of the first gates answered a miss.
pub open spec fn is_some_answer(
    gates: Seq<ResidencyGateModel>,
    replies: Seq<MissReply>,
    miss: VulkanDistributedResolvedResidencyMissModel,
) -> bool {
    exists|k: int|
        #![trigger gates[k], replies[k]]
        0 <= k < replies.len() && is_answer_of(gates[k], replies[k], miss)
}

/// What is missing is what the gates answered: every answer that something is missing is
/// kept, at its gate, and nothing else is.
pub proof fn law_misses_are_what_gates_answered(
    gates: Seq<ResidencyGateModel>,
    replies: Seq<MissReply>,
)
    requires
        replies.len() <= gates.len(),
    ensures
        forall|k: int|
            #![trigger replies[k]]
            0 <= k < replies.len() && replies[k] is Some ==> is_missed(
                resolved_misses(gates, replies),
                gates[k],
                replies[k],
            ),
        forall|m: int|
            0 <= m < resolved_misses(gates, replies).len() ==> is_some_answer(
                gates,
                replies,
                #[trigger] resolved_misses(gates, replies)[m],
            ),
    decreases replies.len(),
{
    if replies.len() > 0 {
        let rest = replies.drop_last();
        law_misses_are_what_gates_answered(gates, rest);
        let earlier = resolved_misses(gates, rest);
        let all = resolved_misses(gates, replies);
        let last = replies.len() - 1;
        assert forall|k: int|
            #![trigger replies[k]]
            0 <= k < replies.len() && replies[k] is Some implies is_missed(
            all,
            gates[k],
            replies[k],
        ) by {
            if k < last {
                assert(rest[k] == replies[k]);
                assert(is_missed(earlier, gates[k], replies[k]));
                let m = choose|m: int|
                    0 <= m < earlier.len() && is_answer_of(
                        gates[k],
                        replies[k],
                        #[trigger] earlier[m],
                    );
                assert(all[m] == earlier[m]);
            } else {
                assert(is_answer_of(gates[k], replies[k], all[all.len() - 1]));
            }
        }
        assert forall|m: int| 0 <= m < all.len() implies is_some_answer(
            gates,
            replies,
            #[trigger] all[m],
        ) by {
            if m < earlier.len() {
                assert(all[m] == earlier[m]);
                let k = choose|k: int|
                    #![trigger gates[k], rest[k]]
                    0 <= k < rest.len() && is_answer_of(gates[k], rest[k], earlier[m]);
                assert(is_answer_of(gates[k], replies[k], all[m]));
            } else {
                assert(is_answer_of(gates[last], replies[last], all[m]));
            }
        }
    }
}

/// The step with a command runs what a handle stands for: a gate of a dispatch, or its
/// kernel.
pub open spec fn runs_handle(
    shard: VulkanDistributedDispatchShardRunnerModel,
    dispatches: Seq<VulkanDistributedDispatchPlanModel>,
    handle: u64,
    byte_offset: usize,
    step: VulkanDistributedFeedbackStepModel,
) -> bool {
    match step {
        VulkanDistributedFeedbackStepModel::Gate { dispatch, gate, byte_offset: own } => {
            &&& own == byte_offset
            &&& dispatch < shard.selected_resource_gates.len()
            &&& gate < shard.selected_resource_gates[dispatch as int].len()
            &&& handle == shard.selected_resource_gates[dispatch as int][gate as int]
        },
        VulkanDistributedFeedbackStepModel::Dispatch {
            dispatch,
            push_constants,
            byte_offset: own,
            guard,
        } => {
            &&& own == byte_offset
            &&& dispatch < shard.resident_dispatches.len()
            &&& handle == shard.resident_dispatches[dispatch as int]
            &&& guard is Some <==> flat_gates(shard.selected_resource_gates).len() > 0
            &&& guard is Some && dispatches[dispatch as int].dispatch_index <= u32::MAX
                ==> guard->0 == dispatches[dispatch as int].dispatch_index
            &&& crate::runner_bindings::shard_constants(
                dispatches[dispatch as int],
                shard.planned[dispatch as int],
            ) == Ok::<Seq<u8>, Seq<char>>(push_constants)
        },
    }
}

proof fn lemma_constants_counted(
    planned: Seq<VulkanDistributedDispatchShardModel>,
    dispatches: Seq<VulkanDistributedDispatchPlanModel>,
    index: nat,
    constants: Seq<Seq<u8>>,
)
    requires
        planned.len() == dispatches.len(),
        index <= planned.len(),
        constants.len() == index,
        forall|d: int|
            0 <= d < index ==> crate::runner_bindings::shard_constants(
                dispatches[d],
                planned[d],
            ) == Ok::<Seq<u8>, Seq<char>>(#[trigger] constants[d]),
        feedback_constants_from(planned, dispatches, index, constants) is Ok,
    ensures
        feedback_constants_from(planned, dispatches, index, constants)->Ok_0.len()
            == planned.len(),
        forall|d: int|
            0 <= d < planned.len() ==> crate::runner_bindings::shard_constants(
                dispatches[d],
                planned[d],
            ) == Ok::<Seq<u8>, Seq<char>>(
                #[trigger] feedback_constants_from(
                    planned,
                    dispatches,
                    index,
                    constants,
                )->Ok_0[d],
            ),
    decreases planned.len() - index,
{
    if index < planned.len() {
        let bytes = crate::runner_bindings::shard_constants(
            dispatches[index as int],
            planned[index as int],
        )->Ok_0;
        lemma_constants_counted(planned, dispatches, index + 1, constants.push(bytes));
    }
}

proof fn lemma_feedback(
    shard: VulkanDistributedDispatchShardRunnerModel,
    dispatches: Seq<VulkanDistributedDispatchPlanModel>,
    constants: Seq<Seq<u8>>,
    byte_offsets: Seq<usize>,
    index: nat,
    steps: Seq<VulkanDistributedFeedbackStepModel>,
)
    requires
        constants.len() == shard.resident_dispatches.len(),
        forall|d: int|
            0 <= d < constants.len() ==> crate::runner_bindings::shard_constants(
                dispatches[d],
                shard.planned[d],
            ) == Ok::<Seq<u8>, Seq<char>>(#[trigger] constants[d]),
        shard.selected_resource_gates.len() == shard.resident_dispatches.len(),
        constants.len() <= usize::MAX,
        forall|d: int|
            0 <= d < shard.selected_resource_gates.len() ==> (
            #[trigger] shard.selected_resource_gates[d]).len() <= usize::MAX,
        index <= constants.len(),
        steps.len() <= byte_offsets.len(),
        feedback_handles(
            shard.resident_dispatches,
            shard.selected_resource_gates,
            index,
        ).len() == steps.len(),
        forall|k: int|
            0 <= k < steps.len() ==> runs_handle(
                shard,
                dispatches,
                feedback_handles(
                    shard.resident_dispatches,
                    shard.selected_resource_gates,
                    index,
                )[k],
                byte_offsets[k],
                #[trigger] steps[k],
            ),
        feedback_steps_from(
            shard,
            dispatches,
            constants,
            byte_offsets,
            index,
            steps.len(),
            steps,
        ) is Ok,
    ensures
        ({
            let all = feedback_steps_from(
                shard,
                dispatches,
                constants,
                byte_offsets,
                index,
                steps.len(),
                steps,
            )->Ok_0;
            let handles = feedback_handles(
                shard.resident_dispatches,
                shard.selected_resource_gates,
                constants.len(),
            );
            &&& all.len() == byte_offsets.len()
            &&& handles.len() == all.len()
            &&& forall|k: int|
                0 <= k < all.len() ==> runs_handle(
                    shard,
                    dispatches,
                    handles[k],
                    byte_offsets[k],
                    #[trigger] all[k],
                )
        }),
    decreases constants.len() - index,
{
    if index < constants.len() {
        let used = steps.len();
        let gates = shard.selected_resource_gates[index as int];
        let gated = steps + gate_feedback_steps(index, gates, byte_offsets, used);
        let step = VulkanDistributedFeedbackStepModel::Dispatch {
            dispatch: index as usize,
            push_constants: constants[index as int],
            byte_offset: byte_offsets[used + gates.len() as int],
            guard: if flat_gates(shard.selected_resource_gates).len() > 0 {
                Some(
                    crate::runner_stages::guard_tag(dispatches[index as int].dispatch_index),
                )
            } else {
                None
            },
        };
        let grown = gated.push(step);
        let before = feedback_handles(
            shard.resident_dispatches,
            shard.selected_resource_gates,
            index,
        );
        let after = feedback_handles(
            shard.resident_dispatches,
            shard.selected_resource_gates,
            index + 1,
        );
        assert(after == (before + gates).push(shard.resident_dispatches[index as int]));
        assert(grown.len() == used + gates.len() + 1);
        assert forall|k: int| 0 <= k < grown.len() implies runs_handle(
            shard,
            dispatches,
            after[k],
            byte_offsets[k],
            #[trigger] grown[k],
        ) by {
            if k < used {
                assert(grown[k] == steps[k]);
                assert(after[k] == before[k]);
            } else if k < used + gates.len() {
                assert(grown[k] == gate_feedback_steps(index, gates, byte_offsets, used)[k
                    - used]);
                assert(after[k] == gates[k - used]);
            } else {
                assert(grown[k] == step);
            }
        }
        lemma_feedback(shard, dispatches, constants, byte_offsets, index + 1, grown);
    }
}

/// A shard that is prepared for feedback has one step for every command that it was given,
/// each with its command in turn, and step by step what was registered: the gates of a
/// dispatch, then its kernel, dispatch by dispatch. Its kernels are guarded exactly where it
/// has gates.
pub proof fn law_feedback_steps_run_what_was_registered(
    shard: VulkanDistributedDispatchShardRunnerModel,
    dispatches: Seq<VulkanDistributedDispatchPlanModel>,
    byte_offsets: Seq<usize>,
)
    requires
        feedback_steps(shard, dispatches, byte_offsets) is Ok,
        shard.planned.len() == dispatches.len(),
        shard.resident_dispatches.len() == dispatches.len(),
        shard.selected_resource_gates.len() == dispatches.len(),
        dispatches.len() <= usize::MAX,
        forall|d: int|
            0 <= d < shard.selected_resource_gates.len() ==> (
            #[trigger] shard.selected_resource_gates[d]).len() <= usize::MAX,
    ensures
        ({
            let steps = feedback_steps(shard, dispatches, byte_offsets)->Ok_0;
            let handles = shard_feedback_handles(shard);
            &&& steps.len() == byte_offsets.len()
            &&& handles.len() == steps.len()
            &&& forall|k: int|
                0 <= k < steps.len() ==> runs_handle(
                    shard,
                    dispatches,
                    handles[k],
                    byte_offsets[k],
                    #[trigger] steps[k],
                )
        }),
{
    lemma_constants_counted(shard.planned, dispatches, 0, Seq::empty());
    let constants = feedback_constants_from(shard.planned, dispatches, 0, Seq::empty())->Ok_0;
    lemma_feedback(shard, dispatches, constants, byte_offsets, 0, Seq::empty());
}

} // verus!
