//! Laws of choosing the dispatches that measured executions are replayed for.
use vstd::prelude::*;

use crate::contracts::ExecutionPhase;
use crate::exact_component::DeviceIdentitiesModel;
use crate::exact_rebinding::VulkanExecutableIdentity;
use crate::exact_replay::{
    component_dispatches, indices_of, is_dispatch, islands_resolved, measured_subset,
    replayed_phase, replayed_set, selected_dispatches, selection_from, selection_of, subsets_from,
    ExactCasesModel,
};
use crate::execution_plans::{
    VulkanDistributedDispatchPlanModel, VulkanDistributedExecutionPlan,
    VulkanDistributedExecutionPlanModel, VulkanDistributedExecutionPlanSetModel,
};
use crate::island_plans::resolved_islands;
use crate::ordered::{
    lemma_keys_listed, lemma_listed_at, lemma_ordered_listing_exists, lists_key, ordered_keys,
    ordered_listing,
};
use crate::placement::{
    VulkanPlacementExecutionCaseIdentityModel, VulkanPlacementOperationGeometryModel,
};
use crate::sequences::kept;
use crate::usage_laws::lemma_none_found;

verus! {

/// The dispatches of a component in a list are these: all of them, in their order, and no
/// other.
pub open spec fn are_dispatches_of(
    dispatches: Seq<VulkanDistributedDispatchPlanModel>,
    component_id: Seq<char>,
    indices: Seq<usize>,
) -> bool {
    &&& forall|k: int|
        0 <= k < indices.len() ==> #[trigger] indices[k] < dispatches.len()
            && dispatches[indices[k] as int].component_id == component_id
    &&& forall|d: int|
        0 <= d < dispatches.len() && (#[trigger] dispatches[d]).component_id == component_id
            ==> indices.contains(d as usize)
    &&& forall|j: int, k: int|
        #![trigger indices[j], indices[k]]
        0 <= j < k < indices.len() ==> indices[j] < indices[k]
}

/// The dispatches of a component are found in their order, each once.
pub proof fn law_components_have_their_dispatches(
    dispatches: Seq<VulkanDistributedDispatchPlanModel>,
    component_id: Seq<char>,
)
    requires
        dispatches.len() <= usize::MAX,
    ensures
        are_dispatches_of(
            dispatches,
            component_id,
            indices_of(component_dispatches(dispatches), component_id),
        ),
        component_dispatches(dispatches).dom().finite(),
        component_dispatches(dispatches).contains_key(component_id) <==> exists|d: int|
            0 <= d < dispatches.len() && (#[trigger] dispatches[d]).component_id == component_id,
    decreases dispatches.len(),
{
    if dispatches.len() > 0 {
        let rest = dispatches.drop_last();
        let last = dispatches.len() - 1;
        law_components_have_their_dispatches(rest, component_id);
        let earlier = indices_of(component_dispatches(rest), component_id);
        let all = indices_of(component_dispatches(dispatches), component_id);
        assert forall|k: int| 0 <= k < earlier.len() implies #[trigger] earlier[k] < last
            && dispatches[earlier[k] as int].component_id == component_id by {
            assert(rest[earlier[k] as int] == dispatches[earlier[k] as int]);
        }
        if dispatches[last].component_id == component_id {
            assert(all == earlier.push(last as usize));
        } else {
            assert(all == earlier);
        }
        assert forall|d: int|
            0 <= d < dispatches.len() && (
            #[trigger] dispatches[d]).component_id == component_id implies all.contains(
            d as usize,
        ) by {
            if d < last {
                assert(rest[d] == dispatches[d]);
                assert(earlier.contains(d as usize));
                let k = choose|k: int| 0 <= k < earlier.len() && earlier[k] == d as usize;
                assert(all[k] == d as usize);
            } else {
                assert(all[all.len() - 1] == d as usize);
            }
        }
        if exists|d: int|
            0 <= d < rest.len() && (#[trigger] rest[d]).component_id == component_id {
            let d = choose|d: int|
                0 <= d < rest.len() && (#[trigger] rest[d]).component_id == component_id;
            assert(dispatches[d].component_id == component_id);
        }
        if exists|d: int|
            0 <= d < dispatches.len() && (
            #[trigger] dispatches[d]).component_id == component_id {
            let d = choose|d: int|
                0 <= d < dispatches.len() && (
                #[trigger] dispatches[d]).component_id == component_id;
            if d < last {
                assert(rest[d].component_id == component_id);
            }
        }
    }
}

/// The dispatches that are kept are those that are selected, in their order.
pub proof fn law_selected_dispatches_are_kept(
    dispatches: Seq<VulkanDistributedDispatchPlanModel>,
    selected: Set<usize>,
)
    requires
        dispatches.len() <= usize::MAX,
    ensures
        forall|d: int|
            0 <= d < dispatches.len() && selected.contains(d as usize) ==> selected_dispatches(
                dispatches,
                selected,
            ).contains(#[trigger] dispatches[d]),
        forall|k: int|
            0 <= k < selected_dispatches(dispatches, selected).len() ==> is_selected(
                dispatches,
                selected,
                #[trigger] selected_dispatches(dispatches, selected)[k],
            ),
        selected_dispatches(dispatches, selected).len() <= dispatches.len(),
    decreases dispatches.len(),
{
    if dispatches.len() > 0 {
        let rest = dispatches.drop_last();
        let last = dispatches.len() - 1;
        law_selected_dispatches_are_kept(rest, selected);
        let earlier = selected_dispatches(rest, selected);
        let all = selected_dispatches(dispatches, selected);
        assert forall|d: int|
            0 <= d < dispatches.len() && selected.contains(d as usize) implies all.contains(
            #[trigger] dispatches[d],
        ) by {
            if d < last {
                assert(rest[d] == dispatches[d]);
                let k = choose|k: int| 0 <= k < earlier.len() && earlier[k] == dispatches[d];
                assert(all[k] == dispatches[d]);
            } else {
                assert(all[all.len() - 1] == dispatches[d]);
            }
        }
        assert forall|k: int| 0 <= k < all.len() implies is_selected(
            dispatches,
            selected,
            #[trigger] all[k],
        ) by {
            if k < earlier.len() {
                assert(all[k] == earlier[k]);
                assert(is_selected(rest, selected, earlier[k]));
                let d = choose|d: int|
                    0 <= d < rest.len() && selected.contains(d as usize) && #[trigger] rest[d]
                        == earlier[k];
                assert(dispatches[d] == all[k]);
            } else {
                assert(dispatches[last] == all[k]);
            }
        }
    }
}

/// The dispatch is a selected one of a list.
pub open spec fn is_selected(
    dispatches: Seq<VulkanDistributedDispatchPlanModel>,
    selected: Set<usize>,
    dispatch: VulkanDistributedDispatchPlanModel,
) -> bool {
    exists|d: int|
        0 <= d < dispatches.len() && selected.contains(d as usize) && #[trigger] dispatches[d]
            == dispatch
}

/// The number of operations that are dispatches, of the first ones.
pub open spec fn dispatch_operations(
    operations: Seq<VulkanPlacementOperationGeometryModel>,
    count: int,
) -> nat
    decreases count,
{
    if count <= 0 {
        0
    } else {
        dispatch_operations(operations, count - 1) + if operations[count - 1] is Dispatch {
            1nat
        } else {
            0
        }
    }
}

proof fn lemma_operations_counted(
    operations: Seq<VulkanPlacementOperationGeometryModel>,
    count: int,
)
    requires
        0 <= count <= operations.len(),
    ensures
        kept(operations.take(count), is_dispatch()).len() == dispatch_operations(
            operations,
            count,
        ),
    decreases count,
{
    if count > 0 {
        lemma_operations_counted(operations, count - 1);
        assert(operations.take(count).drop_last() =~= operations.take(count - 1));
    }
}

/// The case can be selected by a runtime in a phase: the same implementation measured it, in
/// that phase, and it is not one of devices in turn. On a single device it has no shards and
/// nothing that is distributed.
pub open spec fn is_selectable(
    fingerprint: Seq<char>,
    phase: ExecutionPhase,
    available: Seq<usize>,
    case: VulkanPlacementExecutionCaseIdentityModel,
) -> bool {
    &&& case.behavior.runtime_implementation_fingerprint == fingerprint
    &&& case.behavior.phase == phase
    &&& !(case.strategy is Serialized)
    &&& case.strategy is SingleDevice ==> available.len() == 0 && case.shards.len() == 0
}

proof fn lemma_subset_lengths<
    I: Fn(&VulkanDistributedExecutionPlan, &Vec<usize>, &String, usize) -> VulkanExecutableIdentity,
>(
    identity: I,
    plan: VulkanDistributedExecutionPlanModel,
    available: Seq<usize>,
    case: VulkanPlacementExecutionCaseIdentityModel,
    required: nat,
    start: nat,
    selected: Seq<usize>,
)
    requires
        selected.len() <= required,
        start <= available.len(),
        forall|k: int| 0 <= k < selected.len() ==> available.contains(#[trigger] selected[k]),
        subsets_from(identity, plan, available, case, required, start, selected) is Ok,
    ensures
        forall|c: int|
            0 <= c < subsets_from(
                identity,
                plan,
                available,
                case,
                required,
                start,
                selected,
            )->Ok_0.len() ==> is_choice_of(
                available,
                required,
                #[trigger] subsets_from(
                    identity,
                    plan,
                    available,
                    case,
                    required,
                    start,
                    selected,
                )->Ok_0[c],
            ),
    decreases available.len() - start,
{
    if selected.len() < required && available.len() >= start + (required - selected.len()) {
        let grown = selected.push(available[start as int]);
        assert forall|k: int| 0 <= k < grown.len() implies available.contains(
            #[trigger] grown[k],
        ) by {
            if k < selected.len() {
                assert(grown[k] == selected[k]);
            } else {
                assert(available[start as int] == grown[k]);
            }
        }
        lemma_subset_lengths(identity, plan, available, case, required, start + 1, grown);
        lemma_subset_lengths(identity, plan, available, case, required, start + 1, selected);
    }
}

/// As many dispatches as are required, each an available one.
pub open spec fn is_choice_of(available: Seq<usize>, required: nat, choice: Seq<usize>) -> bool {
    &&& choice.len() == required
    &&& forall|k: int| 0 <= k < choice.len() ==> available.contains(#[trigger] choice[k])
}

/// The dispatches that are selected for a case are available ones of its component, as many
/// as it measured; none for a single device.
pub proof fn law_cases_select_as_many_as_they_measured<
    I: Fn(&VulkanDistributedExecutionPlan, &Vec<usize>, &String, usize) -> VulkanExecutableIdentity,
>(
    identity: I,
    plan: VulkanDistributedExecutionPlanModel,
    fingerprint: Seq<char>,
    phase: ExecutionPhase,
    component_id: Seq<char>,
    available: Seq<usize>,
    case: VulkanPlacementExecutionCaseIdentityModel,
)
    requires
        selection_of(identity, plan, fingerprint, phase, component_id, available, case) is Ok,
    ensures
        ({
            let selected = selection_of(
                identity,
                plan,
                fingerprint,
                phase,
                component_id,
                available,
                case,
            )->Ok_0;
            let required = dispatch_operations(case.operations, case.operations.len() as int);
            &&& is_selectable(fingerprint, phase, available, case)
            &&& case.strategy is SingleDevice ==> selected.len() == 0
            &&& !(case.strategy is SingleDevice) ==> required > 0 && is_choice_of(
                available,
                required,
                selected,
            )
        }),
{
    lemma_operations_counted(case.operations, case.operations.len() as int);
    assert(case.operations.take(case.operations.len() as int) =~= case.operations);
    let required = kept(case.operations, is_dispatch()).len();
    if !(case.strategy is SingleDevice) {
        let selected = measured_subset(identity, plan, component_id, available, case)->Ok_0;
        if required == available.len() {
            assert forall|k: int| 0 <= k < selected.len() implies available.contains(
                #[trigger] selected[k],
            ) by {
                assert(available[k] == selected[k]);
            }
        } else {
            lemma_subset_lengths(identity, plan, available, case, required, 0, Seq::empty());
            let candidates = subsets_from(
                identity,
                plan,
                available,
                case,
                required,
                0,
                Seq::empty(),
            )->Ok_0;
            assert(is_choice_of(available, required, candidates[0]));
        }
    }
}

proof fn lemma_selections<
    I: Fn(&VulkanDistributedExecutionPlan, &Vec<usize>, &String, usize) -> VulkanExecutableIdentity,
>(
    identity: I,
    plan: VulkanDistributedExecutionPlanModel,
    fingerprint: Seq<char>,
    phase: ExecutionPhase,
    cases: Seq<(Seq<char>, VulkanPlacementExecutionCaseIdentityModel)>,
    available: Map<Seq<char>, Seq<usize>>,
    index: nat,
    selected: Set<usize>,
)
    requires
        selection_from(
            identity,
            plan,
            fingerprint,
            phase,
            cases,
            available,
            index,
            selected,
        ) is Ok,
    ensures
        forall|c: int|
            index <= c < cases.len() ==> is_selectable(
                fingerprint,
                phase,
                indices_of(available, (#[trigger] cases[c]).0),
                cases[c].1,
            ),
    decreases cases.len() - index,
{
    if index < cases.len() {
        let case = cases[index as int];
        let own = indices_of(available, case.0);
        law_cases_select_as_many_as_they_measured(
            identity,
            plan,
            fingerprint,
            phase,
            case.0,
            own,
            case.1,
        );
        let indices = selection_of(
            identity,
            plan,
            fingerprint,
            phase,
            case.0,
            own,
            case.1,
        )->Ok_0;
        lemma_selections(
            identity,
            plan,
            fingerprint,
            phase,
            cases,
            available,
            index + 1,
            selected.union(indices.to_set()),
        );
    }
}

/// The cases of a phase are replayed only where the same implementation measured each of
/// them, in that phase, and every component with a distributed dispatch has one. The islands
/// of the plan are then those of its dispatches in that phase. Without cases the plan stays
/// as it is.
pub proof fn law_phases_replay_their_own_cases<
    I: Fn(&VulkanDistributedExecutionPlan, &Vec<usize>, &String, usize) -> VulkanExecutableIdentity,
>(
    identity: I,
    plan: VulkanDistributedExecutionPlanModel,
    cases: ExactCasesModel,
    phase: ExecutionPhase,
    fingerprint: Seq<char>,
    identities: DeviceIdentitiesModel,
)
    requires
        cases.dom().finite(),
        plan.dispatches.len() <= usize::MAX,
        replayed_phase(identity, plan, cases, phase, fingerprint, identities).1 is Ok,
    ensures
        ({
            let after = replayed_phase(
                identity,
                plan,
                cases,
                phase,
                fingerprint,
                identities,
            ).0;
            &&& cases == ExactCasesModel::empty() ==> after == plan
            &&& cases != ExactCasesModel::empty() ==> {
                &&& forall|component_id: Seq<char>| #[trigger]
                    cases.contains_key(component_id) ==> cases[component_id].behavior.phase
                        == phase
                        && cases[component_id].behavior.runtime_implementation_fingerprint
                        == fingerprint && !(cases[component_id].strategy is Serialized)
                &&& forall|d: int|
                    0 <= d < plan.dispatches.len() ==> cases.contains_key(
                        (#[trigger] plan.dispatches[d]).component_id,
                    )
                &&& resolved_islands(after.dispatches, after.shared_activation_route, phase) is Ok
                &&& resolved_islands(
                    after.dispatches,
                    after.shared_activation_route,
                    phase,
                )->Ok_0 == after.execution_islands
            }
        }),
{
    if cases != ExactCasesModel::empty() {
        let listed = ordered_listing::<String, VulkanPlacementExecutionCaseIdentityModel>(cases);
        lemma_ordered_listing_exists::<String, VulkanPlacementExecutionCaseIdentityModel>(cases);
        let resolved = islands_resolved(plan, phase).0;
        let available = component_dispatches(resolved.dispatches);
        lemma_selections(
            identity,
            resolved,
            fingerprint,
            phase,
            listed,
            available,
            0,
            Set::empty(),
        );
        assert forall|component_id: Seq<char>| #[trigger]
            cases.contains_key(component_id) implies cases[component_id].behavior.phase == phase
            && cases[component_id].behavior.runtime_implementation_fingerprint == fingerprint
            && !(cases[component_id].strategy is Serialized) by {
            assert(lists_key(listed, component_id));
            let k = choose|k: int| 0 <= k < listed.len() && #[trigger] listed[k].0 == component_id;
            lemma_listed_at::<String, VulkanPlacementExecutionCaseIdentityModel>(listed, k);
            assert(is_selectable(fingerprint, phase, indices_of(available, listed[k].0), listed[k].1));
        }
        assert forall|d: int| 0 <= d < plan.dispatches.len() implies cases.contains_key(
            (#[trigger] plan.dispatches[d]).component_id,
        ) by {
            let component_id = plan.dispatches[d].component_id;
            law_components_have_their_dispatches(plan.dispatches, component_id);
            let keys = ordered_keys::<String, Seq<usize>>(available);
            lemma_keys_listed::<String, Seq<usize>>(available);
            assert(keys.to_set().contains(component_id));
            let k = choose|k: int| 0 <= k < keys.len() && keys[k] == component_id;
            lemma_none_found(
                keys,
                0,
                |component_id: Seq<char>| !cases.contains_key(component_id),
                k,
            );
        }
    }
}

/// The cases of a phase and shape are replayed for its own plan: a plan without cases stays
/// as it is, whatever is replayed for the others.
pub proof fn law_plans_without_cases_stay<
    I: Fn(&VulkanDistributedExecutionPlan, &Vec<usize>, &String, usize) -> VulkanExecutableIdentity,
>(
    identity: I,
    plans: VulkanDistributedExecutionPlanSetModel,
    decode_cases: ExactCasesModel,
    decode_batch_cases: ExactCasesModel,
    prefill_cases: ExactCasesModel,
    fingerprint: Seq<char>,
    identities: DeviceIdentitiesModel,
)
    ensures
        ({
            let replayed = replayed_set(
                identity,
                plans,
                decode_cases,
                decode_batch_cases,
                prefill_cases,
                fingerprint,
                identities,
            );
            &&& decode_cases == ExactCasesModel::empty() ==> replayed.0.decode == plans.decode
            &&& decode_batch_cases == ExactCasesModel::empty() ==> replayed.0.decode_batch
                == plans.decode_batch
            &&& prefill_cases == ExactCasesModel::empty() ==> replayed.0.prefill == plans.prefill
            &&& replayed.1 is Ok ==> {
                &&& replayed_phase(
                    identity,
                    plans.decode,
                    decode_cases,
                    ExecutionPhase::Decode,
                    fingerprint,
                    identities,
                ) == (replayed.0.decode, Ok::<(), Seq<char>>(()))
                &&& replayed_phase(
                    identity,
                    plans.decode_batch,
                    decode_batch_cases,
                    ExecutionPhase::Decode,
                    fingerprint,
                    identities,
                ) == (replayed.0.decode_batch, Ok::<(), Seq<char>>(()))
                &&& replayed_phase(
                    identity,
                    plans.prefill,
                    prefill_cases,
                    ExecutionPhase::Prefill,
                    fingerprint,
                    identities,
                ) == (replayed.0.prefill, Ok::<(), Seq<char>>(()))
            }
        }),
{
}

} // verus!
