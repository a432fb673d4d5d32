//! Laws of replaying the measured executions of a phase.
use vstd::prelude::*;

use crate::contracts::ExecutionPhase;
use crate::exact_component::DeviceIdentitiesModel;
use crate::exact_laws::{
    is_same_dispatch, is_same_plan, law_replay_changes_only_ownership, lemma_same_plan_transitive,
};
use crate::exact_rebinding::VulkanExecutableIdentity;
use crate::exact_replay::{
    component_dispatches, indices_of, islands_resolved, replayed_phase, replays_from,
    selected_dispatches, selection_from, ExactCasesModel,
};
use crate::execution_plans::{
    VulkanDistributedDispatchPlanModel, VulkanDistributedExecutionPlan,
    VulkanDistributedExecutionPlanModel,
};
use crate::island_plans::{island_dispatches, law_islands_partition_the_dispatches};
use crate::ordered::ordered_listing;
use crate::placement::VulkanPlacementExecutionCaseIdentityModel;

verus! {

proof fn lemma_replays_keep<
    I: Fn(&VulkanDistributedExecutionPlan, &Vec<usize>, &String, usize) -> VulkanExecutableIdentity,
>(
    identity: I,
    plan: VulkanDistributedExecutionPlanModel,
    cases: Seq<(Seq<char>, VulkanPlacementExecutionCaseIdentityModel)>,
    by_component: Map<Seq<char>, Seq<usize>>,
    identities: DeviceIdentitiesModel,
    index: nat,
)
    ensures
        is_same_plan(
            plan,
            replays_from(identity, plan, cases, by_component, identities, index).0,
        ),
    decreases cases.len() - index,
{
    if index < cases.len() {
        let case = cases[index as int];
        let indices = indices_of(by_component, case.0);
        let replayed = if case.1.strategy is SingleDevice || case.1.strategy is Serialized {
            (plan, Ok(()))
        } else {
            crate::exact_application::replayed_component(
                identity,
                plan,
                case.0,
                indices,
                case.1,
                identities,
            )
        };
        law_replay_changes_only_ownership(identity, plan, case.0, indices, case.1, identities);
        assert(is_same_plan(plan, replayed.0));
        if replayed.1 is Ok {
            lemma_replays_keep(identity, replayed.0, cases, by_component, identities, index + 1);
            lemma_same_plan_transitive(
                plan,
                replayed.0,
                replays_from(identity, replayed.0, cases, by_component, identities, index + 1).0,
            );
        }
    }
}

proof fn lemma_selected_from(
    dispatches: Seq<VulkanDistributedDispatchPlanModel>,
    selected: Set<usize>,
    place: int,
) -> (source: int)
    requires
        0 <= place < selected_dispatches(dispatches, selected).len(),
    ensures
        0 <= source < dispatches.len(),
        selected_dispatches(dispatches, selected)[place] == dispatches[source],
    decreases dispatches.len(),
{
    let earlier = selected_dispatches(dispatches.drop_last(), selected);
    if place < earlier.len() {
        lemma_selected_from(dispatches.drop_last(), selected, place)
    } else {
        dispatches.len() - 1
    }
}

/// Every dispatch of a phase whose measured cases were replayed is a dispatch of the
/// phase as it was but for the resources that its shards own, and the islands of the
/// phase hold every dispatch that is left once and in its order.
pub proof fn law_phase_replay_keeps_dispatches<
    I: Fn(&VulkanDistributedExecutionPlan, &Vec<usize>, &String, usize) -> VulkanExecutableIdentity,
>(
    identity: I,
    plan: VulkanDistributedExecutionPlanModel,
    cases: ExactCasesModel,
    phase: ExecutionPhase,
    fingerprint: Seq<char>,
    identities: DeviceIdentitiesModel,
    place: int,
) -> (source: int)
    requires
        cases != ExactCasesModel::empty(),
        replayed_phase(identity, plan, cases, phase, fingerprint, identities).1 is Ok,
        0 <= place < replayed_phase(
            identity,
            plan,
            cases,
            phase,
            fingerprint,
            identities,
        ).0.dispatches.len(),
    ensures
        0 <= source < plan.dispatches.len(),
        ({
            let after = replayed_phase(
                identity,
                plan,
                cases,
                phase,
                fingerprint,
                identities,
            ).0;
            &&& is_same_dispatch(plan.dispatches[source], after.dispatches[place])
            &&& island_dispatches(after.execution_islands) == after.dispatches
        }),
{
    let listed = ordered_listing::<String, VulkanPlacementExecutionCaseIdentityModel>(cases);
    let resolved = islands_resolved(plan, phase).0;
    let selected = selection_from(
        identity,
        resolved,
        fingerprint,
        phase,
        listed,
        component_dispatches(resolved.dispatches),
        0,
        Set::empty(),
    )->Ok_0;
    let chosen = islands_resolved(
        VulkanDistributedExecutionPlanModel {
            dispatches: selected_dispatches(resolved.dispatches, selected),
            ..resolved
        },
        phase,
    ).0;
    let by_component = component_dispatches(chosen.dispatches);
    let replayed = replays_from(identity, chosen, listed, by_component, identities, 0).0;
    lemma_replays_keep(identity, chosen, listed, by_component, identities, 0);
    let after = replayed_phase(identity, plan, cases, phase, fingerprint, identities).0;
    assert(after.dispatches == replayed.dispatches);
    law_islands_partition_the_dispatches(
        replayed.dispatches,
        replayed.shared_activation_route,
        phase,
    );
    assert(is_same_dispatch(chosen.dispatches[place], replayed.dispatches[place]));
    lemma_selected_from(resolved.dispatches, selected, place)
}

} // verus!
