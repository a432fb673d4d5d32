//! Replaying measured executions in the phases of a plan.
use vstd::prelude::*;

use crate::contract_selection::{phase_name, phase_text};
use crate::contracts::ExecutionPhase;
use crate::errors::{plan_agrees, VulkanDistributedPlanError};
use crate::exact_application::{
    replay_agrees, replay_exact_distributed_component_case, replayed_component,
};
use crate::exact_component::{DeviceIdentities, DeviceIdentitiesModel};
use crate::exact_coverage::{
    exact_case_error, exact_operations_are_structurally_equivalent, same_operations,
};
use crate::exact_rebinding::{
    case_error, case_identity, case_text, find_identity, identifies, VulkanExecutableIdentity,
    VulkanExecutableIdentityModel,
};
use crate::execution_plans::{
    VulkanDistributedDispatchPlan, VulkanDistributedDispatchPlanModel,
    VulkanDistributedExecutionPlan, VulkanDistributedExecutionPlanModel,
    VulkanDistributedExecutionPlanSet, VulkanDistributedExecutionPlanSetModel,
};
use crate::island_plans::{resolved_islands, resolved_physical_execution_islands_for_phase};
use crate::islands::append_all;
use crate::ordered::{ordered_keys, ordered_listing, OrderedMap, OrderedSet};
use crate::placement::{
    VulkanPlacementExecutionCaseIdentity, VulkanPlacementExecutionCaseIdentityModel,
    VulkanPlacementExecutionStrategy, VulkanPlacementOperationGeometry,
    VulkanPlacementOperationGeometryModel,
};
use crate::sequences::{append, find_from, kept, lemma_kept_step};
use crate::text::{debug_text, decimal, decimal_text, join3, join4, join5, join6, quoted};
use crate::values::PlainValue;

verus! {

/// The measured cases by component.
pub type ExactCases = OrderedMap<String, VulkanPlacementExecutionCaseIdentity>;

/// The model of [`ExactCases`].
pub type ExactCasesModel = Map<Seq<char>, VulkanPlacementExecutionCaseIdentityModel>;

/// The dispatches of each component, in their order.
pub open spec fn component_dispatches(
    dispatches: Seq<VulkanDistributedDispatchPlanModel>,
) -> Map<Seq<char>, Seq<usize>>
    decreases dispatches.len(),
{
    if dispatches.len() == 0 {
        Map::empty()
    } else {
        let earlier = component_dispatches(dispatches.drop_last());
        let component_id = dispatches.last().component_id;
        earlier.insert(
            component_id,
            indices_of(earlier, component_id).push((dispatches.len() - 1) as usize),
        )
    }
}

/// The dispatches of a component, none where it is unknown.
pub open spec fn indices_of(
    by_component: Map<Seq<char>, Seq<usize>>,
    component_id: Seq<char>,
) -> Seq<usize> {
    if by_component.contains_key(component_id) {
        by_component[component_id]
    } else {
        Seq::empty()
    }
}

/// The operation is a dispatch.
pub open spec fn is_dispatch() -> spec_fn(VulkanPlacementOperationGeometryModel) -> bool {
    |operation: VulkanPlacementOperationGeometryModel| operation is Dispatch
}

/// Whether dispatches are the ones that were measured, or the text of the error.
pub open spec fn was_measured(
    identity: VulkanExecutableIdentityModel,
    case: VulkanPlacementExecutionCaseIdentityModel,
) -> Result<bool, Seq<char>> {
    match identity.operations {
        Err(message) => Err(message),
        Ok(operations) => if !same_operations(case.operations, operations) {
            Ok(false)
        } else {
            match (
                identity.artifact_digest,
                identity.execution_graph_digest,
                identity.equivalence,
            ) {
                (Err(message), _, _) => Err(message),
                (Ok(_), Err(message), _) => Err(message),
                (Ok(_), Ok(_), Err(message)) => Err(message),
                (Ok(artifact_digest), Ok(graph_digest), Ok(equivalence)) => Ok(
                    artifact_digest == case.artifact_digest && graph_digest
                        == case.execution_graph_digest && equivalence == case.equivalence,
                ),
            }
        },
    }
}

/// The choices of as many dispatches as are required that were measured: those that
/// were chosen, with others from a start on, or the text of the error.
pub open spec fn subsets_from<
    I: Fn(&VulkanDistributedExecutionPlan, &Vec<usize>, &String, usize) -> VulkanExecutableIdentity,
>(
    identity: I,
    plan: VulkanDistributedExecutionPlanModel,
    available: Seq<usize>,
    case: VulkanPlacementExecutionCaseIdentityModel,
    required: nat,
    start: nat,
    selected: Seq<usize>,
) -> Result<Seq<Seq<usize>>, Seq<char>>
    decreases available.len() - start,
{
    if selected.len() >= required {
        match was_measured(case_identity(identity, plan, selected, case), case) {
            Err(message) => Err(message),
            Ok(measured) => if measured {
                Ok(seq![selected])
            } else {
                Ok(Seq::empty())
            },
        }
    } else if available.len() < start + (required - selected.len()) {
        Ok(Seq::empty())
    } else {
        match subsets_from(
            identity,
            plan,
            available,
            case,
            required,
            start + 1,
            selected.push(available[start as int]),
        ) {
            Err(message) => Err(message),
            Ok(with_start) => match subsets_from(
                identity,
                plan,
                available,
                case,
                required,
                start + 1,
                selected,
            ) {
                Err(message) => Err(message),
                Ok(without_start) => Ok(with_start + without_start),
            },
        }
    }
}

/// The dispatches of a component that were measured, or the text of the error. Where as
/// many were measured as there are, they are all of them.
pub open spec fn measured_subset<
    I: Fn(&VulkanDistributedExecutionPlan, &Vec<usize>, &String, usize) -> VulkanExecutableIdentity,
>(
    identity: I,
    plan: VulkanDistributedExecutionPlanModel,
    component_id: Seq<char>,
    available: Seq<usize>,
    case: VulkanPlacementExecutionCaseIdentityModel,
) -> Result<Seq<usize>, Seq<char>> {
    let required = kept(case.operations, is_dispatch()).len();
    if required == 0 || required > available.len() {
        Err(case_text(component_id, " has no compatible number of distributed dispatches"@))
    } else if required == available.len() {
        Ok(available)
    } else {
        match subsets_from(identity, plan, available, case, required, 0, Seq::empty()) {
            Err(message) => Err(message),
            Ok(candidates) => if candidates.len() == 1 {
                Ok(candidates[0])
            } else if candidates.len() == 0 {
                Err(
                    case_text(
                        component_id,
                        " has no structurally matching distributed contract subset"@,
                    ),
                )
            } else {
                Err(
                    case_text(component_id, " ambiguously matches "@) + decimal_text(
                        candidates.len(),
                    ) + " distributed contract subsets"@,
                )
            },
        }
    }
}

/// The dispatches that a case selects, or the text of the error.
pub open spec fn selection_of<
    I: Fn(&VulkanDistributedExecutionPlan, &Vec<usize>, &String, usize) -> VulkanExecutableIdentity,
>(
    identity: I,
    plan: VulkanDistributedExecutionPlanModel,
    fingerprint: Seq<char>,
    phase: ExecutionPhase,
    component_id: Seq<char>,
    available: Seq<usize>,
    case: VulkanPlacementExecutionCaseIdentityModel,
) -> Result<Seq<usize>, Seq<char>> {
    if case.behavior.runtime_implementation_fingerprint != fingerprint {
        Err(
            "exact execution case for component "@ + debug_text(component_id)
                + " was measured by a different runtime implementation"@,
        )
    } else if case.behavior.phase != phase {
        Err(
            "exact execution case for component "@ + debug_text(component_id) + " belongs to "@
                + phase_text(case.behavior.phase) + ", not "@ + phase_text(phase),
        )
    } else if case.strategy is SingleDevice {
        if available.len() > 0 || case.shards.len() > 0 {
            Err(
                "single-device exact case for component "@ + debug_text(component_id)
                    + " conflicts with a distributed runtime plan"@,
            )
        } else {
            Ok(Seq::empty())
        }
    } else if case.strategy is Serialized {
        Err(
            "serialized exact case for component "@ + debug_text(component_id)
                + " cannot replay as one distributed component island"@,
        )
    } else {
        measured_subset(identity, plan, component_id, available, case)
    }
}

/// The dispatches that the cases from an index on select, or the text of the error.
pub open spec fn selection_from<
    I: Fn(&VulkanDistributedExecutionPlan, &Vec<usize>, &String, usize) -> VulkanExecutableIdentity,
>(
    identity: I,
    plan: VulkanDistributedExecutionPlanModel,
    fingerprint: Seq<char>,
    phase: ExecutionPhase,
    cases: Seq<(Seq<char>, VulkanPlacementExecutionCaseIdentityModel)>,
    available: Map<Seq<char>, Seq<usize>>,
    index: nat,
    selected: Set<usize>,
) -> Result<Set<usize>, Seq<char>>
    decreases cases.len() - index,
{
    if index >= cases.len() {
        Ok(selected)
    } else {
        match selection_of(
            identity,
            plan,
            fingerprint,
            phase,
            cases[index as int].0,
            indices_of(available, cases[index as int].0),
            cases[index as int].1,
        ) {
            Err(message) => Err(message),
            Ok(indices) => selection_from(
                identity,
                plan,
                fingerprint,
                phase,
                cases,
                available,
                index + 1,
                selected.union(indices.to_set()),
            ),
        }
    }
}

/// The first dispatches that are selected, in their order.
pub open spec fn selected_dispatches(
    dispatches: Seq<VulkanDistributedDispatchPlanModel>,
    selected: Set<usize>,
) -> Seq<VulkanDistributedDispatchPlanModel>
    decreases dispatches.len(),
{
    if dispatches.len() == 0 {
        Seq::empty()
    } else {
        let earlier = selected_dispatches(dispatches.drop_last(), selected);
        if selected.contains((dispatches.len() - 1) as usize) {
            earlier.push(dispatches.last())
        } else {
            earlier
        }
    }
}

/// The plan with the cases from an index on replayed, and what came of it.
pub open spec fn replays_from<
    I: Fn(&VulkanDistributedExecutionPlan, &Vec<usize>, &String, usize) -> VulkanExecutableIdentity,
>(
    identity: I,
    plan: VulkanDistributedExecutionPlanModel,
    cases: Seq<(Seq<char>, VulkanPlacementExecutionCaseIdentityModel)>,
    by_component: Map<Seq<char>, Seq<usize>>,
    identities: DeviceIdentitiesModel,
    index: nat,
) -> (VulkanDistributedExecutionPlanModel, Result<(), Seq<char>>)
    decreases cases.len() - index,
{
    if index >= cases.len() {
        (plan, Ok(()))
    } else {
        let case = cases[index as int];
        let replayed = if case.1.strategy is SingleDevice || case.1.strategy is Serialized {
            (plan, Ok(()))
        } else {
            replayed_component(
                identity,
                plan,
                case.0,
                indices_of(by_component, case.0),
                case.1,
                identities,
            )
        };
        match replayed.1 {
            Err(message) => replayed,
            Ok(_) => replays_from(
                identity,
                replayed.0,
                cases,
                by_component,
                identities,
                index + 1,
            ),
        }
    }
}

/// The plan with its islands resolved anew, and what came of it.
pub open spec fn islands_resolved(
    plan: VulkanDistributedExecutionPlanModel,
    phase: ExecutionPhase,
) -> (VulkanDistributedExecutionPlanModel, Result<(), Seq<char>>) {
    match resolved_islands(plan.dispatches, plan.shared_activation_route, phase) {
        Err(message) => (plan, Err(message)),
        Ok(execution_islands) => (
            VulkanDistributedExecutionPlanModel { execution_islands, ..plan },
            Ok(()),
        ),
    }
}

/// The first component without a case makes an error.
pub open spec fn missing_case_fault(
    by_component: Map<Seq<char>, Seq<usize>>,
    cases: ExactCasesModel,
    phase: ExecutionPhase,
) -> Option<Seq<char>> {
    match find_from(
        ordered_keys::<String, Seq<usize>>(by_component),
        0,
        |component_id: Seq<char>| !cases.contains_key(component_id),
    ) {
        Some(component_id) => Some(
            "distributed runtime component "@ + debug_text(component_id)
                + " has no exact execution case for "@ + phase_text(phase),
        ),
        None => None,
    }
}

/// The plan of a phase with the measured cases replayed, and what came of it.
pub open spec fn replayed_phase<
    I: Fn(&VulkanDistributedExecutionPlan, &Vec<usize>, &String, usize) -> VulkanExecutableIdentity,
>(
    identity: I,
    plan: VulkanDistributedExecutionPlanModel,
    cases: ExactCasesModel,
    phase: ExecutionPhase,
    fingerprint: Seq<char>,
    identities: DeviceIdentitiesModel,
) -> (VulkanDistributedExecutionPlanModel, Result<(), Seq<char>>) {
    let listed = ordered_listing::<String, VulkanPlacementExecutionCaseIdentityModel>(cases);
    if cases == ExactCasesModel::empty() {
        (plan, Ok(()))
    } else {
        let resolved = islands_resolved(plan, phase);
        let available = component_dispatches(resolved.0.dispatches);
        match resolved.1 {
            Err(message) => resolved,
            Ok(_) => match selection_from(
                identity,
                resolved.0,
                fingerprint,
                phase,
                listed,
                available,
                0,
                Set::empty(),
            ) {
                Err(message) => (resolved.0, Err(message)),
                Ok(selected) => match missing_case_fault(available, cases, phase) {
                    Some(message) => (resolved.0, Err(message)),
                    None => {
                        let chosen = islands_resolved(
                            VulkanDistributedExecutionPlanModel {
                                dispatches: selected_dispatches(resolved.0.dispatches, selected),
                                ..resolved.0
                            },
                            phase,
                        );
                        match chosen.1 {
                            Err(message) => chosen,
                            Ok(_) => {
                                let replayed = replays_from(
                                    identity,
                                    chosen.0,
                                    listed,
                                    component_dispatches(chosen.0.dispatches),
                                    identities,
                                    0,
                                );
                                match replayed.1 {
                                    Err(message) => replayed,
                                    Ok(_) => islands_resolved(replayed.0, phase),
                                }
                            },
                        }
                    },
                },
            },
        }
    }
}

fn list_component_dispatches(
    dispatches: &Vec<VulkanDistributedDispatchPlan>,
) -> (by_component: OrderedMap<
    String,
    Vec<usize>,
>)
    ensures
        by_component.deep_view() == component_dispatches(dispatches.deep_view()),
{
    let ghost all = dispatches.deep_view();
    let mut by_component: OrderedMap<String, Vec<usize>> = OrderedMap::new();
    assert(all.take(0) =~= Seq::empty());
    for index in 0..dispatches.len()
        invariant
            all == dispatches.deep_view(),
            by_component.deep_view() == component_dispatches(all.take(index as int)),
    {
        let component_id = &dispatches[index].component_id;
        assert(all[index as int] == dispatches@[index as int].deep_view());
        assert(all.take(index as int + 1).drop_last() =~= all.take(index as int));
        let mut indices = list_indices_of(&by_component, component_id);
        append(&mut indices, index);
        by_component.insert(component_id.clone(), indices);
    }
    assert(all.take(all.len() as int) =~= all);
    by_component
}

fn list_indices_of(
    by_component: &OrderedMap<String, Vec<usize>>,
    component_id: &String,
) -> (indices: Vec<usize>)
    ensures
        indices.deep_view() == indices_of(by_component.deep_view(), component_id@),
{
    match by_component.get(component_id) {
        Some(indices) => indices.duplicate(),
        None => {
            let indices: Vec<usize> = Vec::new();
            assert(indices.deep_view() =~= Seq::empty());
            indices
        },
    }
}

fn count_measured_dispatches(operations: &Vec<VulkanPlacementOperationGeometry>) -> (count: usize)
    ensures
        count == kept(operations.deep_view(), is_dispatch()).len(),
{
    let ghost all = operations.deep_view();
    let ghost condition = is_dispatch();
    let mut count: usize = 0;
    assert(all.take(0) =~= Seq::empty());
    for index in 0..operations.len()
        invariant
            all == operations.deep_view(),
            condition == is_dispatch(),
            count <= index,
            count == kept(all.take(index as int), condition).len(),
    {
        proof {
            lemma_kept_step(all, condition, index as int);
            assert(all[index as int] == operations@[index as int].deep_view());
        }
        match &operations[index] {
            VulkanPlacementOperationGeometry::Dispatch { .. } => {
                count += 1;
            },
            _ => {},
        }
    }
    assert(all.take(all.len() as int) =~= all);
    count
}

fn check_measured(
    identity: VulkanExecutableIdentity,
    case: &VulkanPlacementExecutionCaseIdentity,
) -> (outcome: Result<bool, VulkanDistributedPlanError>)
    ensures
        plan_agrees(outcome, was_measured(identity.deep_view(), case.deep_view())),
{
    match &identity.operations {
        Err(reason) => {
            return exact_case_error(reason.clone());
        },
        Ok(operations) => {
            if !exact_operations_are_structurally_equivalent(&case.operations, operations) {
                return Ok(false);
            }
        },
    }
    let artifact_digest = match identity.artifact_digest {
        Err(reason) => {
            return exact_case_error(reason);
        },
        Ok(digest) => digest,
    };
    let graph_digest = match identity.execution_graph_digest {
        Err(reason) => {
            return exact_case_error(reason);
        },
        Ok(digest) => digest,
    };
    let equivalence = match identity.equivalence {
        Err(reason) => {
            return exact_case_error(reason);
        },
        Ok(equivalence) => equivalence,
    };
    Ok(
        artifact_digest == case.artifact_digest && graph_digest == case.execution_graph_digest
            && equivalence == case.equivalence,
    )
}

/// Finds the choices of as many dispatches as are required that were measured.
pub fn exact_dispatch_subset_candidates<
    I: Fn(&VulkanDistributedExecutionPlan, &Vec<usize>, &String, usize) -> VulkanExecutableIdentity,
>(
    execution_plan: &VulkanDistributedExecutionPlan,
    available_dispatch_indices: &Vec<usize>,
    measured_case: &VulkanPlacementExecutionCaseIdentity,
    required_count: usize,
    start: usize,
    selected: &Vec<usize>,
    identity: &I,
) -> (outcome: Result<Vec<Vec<usize>>, VulkanDistributedPlanError>)
    requires
        identifies(*identity),
        start <= available_dispatch_indices.len(),
    ensures
        plan_agrees(
            outcome,
            subsets_from(
                *identity,
                execution_plan.deep_view(),
                available_dispatch_indices.deep_view(),
                measured_case.deep_view(),
                required_count as nat,
                start as nat,
                selected.deep_view(),
            ),
        ),
    decreases available_dispatch_indices.len() - start,
{
    let mut candidates: Vec<Vec<usize>> = Vec::new();
    assert(candidates.deep_view() =~= Seq::empty());
    if selected.len() >= required_count {
        let found = find_identity(
            identity,
            execution_plan,
            selected,
            &measured_case.behavior.compiled_execution_signature,
            measured_case.devices.len(),
        );
        return match check_measured(found, measured_case) {
            Err(error) => Err(error),
            Ok(measured) => {
                if measured {
                    append(&mut candidates, selected.duplicate());
                    assert(candidates.deep_view() =~= seq![selected.deep_view()]);
                }
                Ok(candidates)
            },
        };
    }
    if available_dispatch_indices.len() - start < required_count - selected.len() {
        return Ok(candidates);
    }
    let mut chosen = selected.duplicate();
    assert(available_dispatch_indices.deep_view()[start as int]
        == available_dispatch_indices@[start as int]);
    append(&mut chosen, available_dispatch_indices[start]);
    match exact_dispatch_subset_candidates(
        execution_plan,
        available_dispatch_indices,
        measured_case,
        required_count,
        start + 1,
        &chosen,
        identity,
    ) {
        Err(error) => {
            return Err(error);
        },
        Ok(found) => {
            candidates = found;
        },
    }
    match exact_dispatch_subset_candidates(
        execution_plan,
        available_dispatch_indices,
        measured_case,
        required_count,
        start + 1,
        selected,
        identity,
    ) {
        Err(error) => Err(error),
        Ok(found) => {
            append_all(&mut candidates, &found);
            Ok(candidates)
        },
    }
}

/// Finds the dispatches of a component that were measured.
pub fn exact_dispatch_subset_for_measured_case<
    I: Fn(&VulkanDistributedExecutionPlan, &Vec<usize>, &String, usize) -> VulkanExecutableIdentity,
>(
    execution_plan: &VulkanDistributedExecutionPlan,
    component_id: &str,
    available_dispatch_indices: &Vec<usize>,
    measured_case: &VulkanPlacementExecutionCaseIdentity,
    identity: &I,
) -> (outcome: Result<Vec<usize>, VulkanDistributedPlanError>)
    requires
        identifies(*identity),
    ensures
        plan_agrees(
            outcome,
            measured_subset(
                *identity,
                execution_plan.deep_view(),
                component_id@,
                available_dispatch_indices.deep_view(),
                measured_case.deep_view(),
            ),
        ),
{
    let required: usize = count_measured_dispatches(&measured_case.operations);
    if required == 0 || required > available_dispatch_indices.len() {
        return case_error(
            component_id,
            " has no compatible number of distributed dispatches",
        );
    }
    if required == available_dispatch_indices.len() {
        return Ok(available_dispatch_indices.duplicate());
    }
    let nothing: Vec<usize> = Vec::new();
    assert(nothing.deep_view() =~= Seq::empty());
    let candidates = match exact_dispatch_subset_candidates(
        execution_plan,
        available_dispatch_indices,
        measured_case,
        required,
        0,
        &nothing,
        identity,
    ) {
        Err(error) => {
            return Err(error);
        },
        Ok(candidates) => candidates,
    };
    assert(candidates.deep_view().len() == candidates.len());
    if candidates.len() == 1 {
        assert(candidates.deep_view()[0] == candidates@[0].deep_view());
        return Ok(candidates[0].duplicate());
    }
    if candidates.len() == 0 {
        return case_error(
            component_id,
            " has no structurally matching distributed contract subset",
        );
    }
    exact_case_error(
        join5(
            "exact case for component ",
            quoted(component_id).as_str(),
            " ambiguously matches ",
            decimal(candidates.len()).as_str(),
            " distributed contract subsets",
        ),
    )
}

fn select_dispatches_of_case<
    I: Fn(&VulkanDistributedExecutionPlan, &Vec<usize>, &String, usize) -> VulkanExecutableIdentity,
>(
    execution_plan: &VulkanDistributedExecutionPlan,
    runtime_fingerprint: &str,
    phase: ExecutionPhase,
    component_id: &str,
    available: &Vec<usize>,
    case: &VulkanPlacementExecutionCaseIdentity,
    identity: &I,
) -> (outcome: Result<Vec<usize>, VulkanDistributedPlanError>)
    requires
        identifies(*identity),
    ensures
        plan_agrees(
            outcome,
            selection_of(
                *identity,
                execution_plan.deep_view(),
                runtime_fingerprint@,
                phase,
                component_id@,
                available.deep_view(),
                case.deep_view(),
            ),
        ),
{
    if case.behavior.runtime_implementation_fingerprint != runtime_fingerprint.to_owned() {
        return exact_case_error(
            join3(
                "exact execution case for component ",
                quoted(component_id).as_str(),
                " was measured by a different runtime implementation",
            ),
        );
    }
    if case.behavior.phase != phase {
        return exact_case_error(
            join6(
                "exact execution case for component ",
                quoted(component_id).as_str(),
                " belongs to ",
                phase_name(case.behavior.phase),
                ", not ",
                phase_name(phase),
            ),
        );
    }
    match case.strategy {
        VulkanPlacementExecutionStrategy::SingleDevice => {
            if available.len() > 0 || case.shards.len() > 0 {
                return exact_case_error(
                    join3(
                        "single-device exact case for component ",
                        quoted(component_id).as_str(),
                        " conflicts with a distributed runtime plan",
                    ),
                );
            }
            let nothing: Vec<usize> = Vec::new();
            assert(nothing.deep_view() =~= Seq::empty());
            Ok(nothing)
        },
        VulkanPlacementExecutionStrategy::Serialized => exact_case_error(
            join3(
                "serialized exact case for component ",
                quoted(component_id).as_str(),
                " cannot replay as one distributed component island",
            ),
        ),
        _ => exact_dispatch_subset_for_measured_case(
            execution_plan,
            component_id,
            available,
            case,
            identity,
        ),
    }
}

fn select_dispatches<
    I: Fn(&VulkanDistributedExecutionPlan, &Vec<usize>, &String, usize) -> VulkanExecutableIdentity,
>(
    execution_plan: &VulkanDistributedExecutionPlan,
    runtime_fingerprint: &str,
    phase: ExecutionPhase,
    cases: &ExactCases,
    available: &OrderedMap<String, Vec<usize>>,
    identity: &I,
) -> (outcome: Result<OrderedSet<usize>, VulkanDistributedPlanError>)
    requires
        identifies(*identity),
    ensures
        plan_agrees(
            outcome,
            selection_from(
                *identity,
                execution_plan.deep_view(),
                runtime_fingerprint@,
                phase,
                cases.listing(),
                available.deep_view(),
                0,
                Set::empty(),
            ),
        ),
{
    let count: usize = cases.len();
    let ghost all = cases.listing();
    let mut selected: OrderedSet<usize> = OrderedSet::new();
    for index in 0..count
        invariant
            identifies(*identity),
            count == all.len(),
            all == cases.listing(),
            selection_from(
                *identity,
                execution_plan.deep_view(),
                runtime_fingerprint@,
                phase,
                all,
                available.deep_view(),
                0,
                Set::empty(),
            ) == selection_from(
                *identity,
                execution_plan.deep_view(),
                runtime_fingerprint@,
                phase,
                all,
                available.deep_view(),
                index as nat,
                selected.deep_view(),
            ),
    {
        let component_id = cases.key_at(index);
        let case = cases.value_at(index);
        let indices = list_indices_of(available, component_id);
        match select_dispatches_of_case(
            execution_plan,
            runtime_fingerprint,
            phase,
            component_id.as_str(),
            &indices,
            case,
            identity,
        ) {
            Err(error) => {
                return Err(error);
            },
            Ok(chosen) => {
                selected.add_all(&chosen);
            },
        }
    }
    Ok(selected)
}

fn check_missing_cases(
    by_component: &OrderedMap<String, Vec<usize>>,
    cases: &ExactCases,
    phase: ExecutionPhase,
) -> (outcome: Result<(), VulkanDistributedPlanError>)
    ensures
        crate::exact_coverage::fault_agrees(
            outcome,
            missing_case_fault(by_component.deep_view(), cases.deep_view(), phase),
        ),
{
    let components = by_component.to_keys();
    let ghost all = components.deep_view();
    let ghost condition = |component_id: Seq<char>| !cases.deep_view().contains_key(component_id);
    for index in 0..components.len()
        invariant
            all == components.deep_view(),
            all == ordered_keys::<String, Seq<usize>>(by_component.deep_view()),
            condition == (|component_id: Seq<char>| !cases.deep_view().contains_key(component_id)),
            find_from(all, 0, condition) == find_from(all, index as nat, condition),
    {
        assert(all[index as int] == components@[index as int]@);
        if cases.get(&components[index]).is_none() {
            return exact_case_error(
                join4(
                    "distributed runtime component ",
                    quoted(components[index].as_str()).as_str(),
                    " has no exact execution case for ",
                    phase_name(phase),
                ),
            );
        }
    }
    Ok(())
}

fn take_selected(
    dispatches: &Vec<VulkanDistributedDispatchPlan>,
    selected: &OrderedSet<usize>,
) -> (taken: Vec<VulkanDistributedDispatchPlan>)
    ensures
        taken.deep_view() == selected_dispatches(dispatches.deep_view(), selected.deep_view()),
{
    let ghost all = dispatches.deep_view();
    let mut taken: Vec<VulkanDistributedDispatchPlan> = Vec::new();
    assert(taken.deep_view() =~= selected_dispatches(all.take(0), selected.deep_view()));
    for index in 0..dispatches.len()
        invariant
            all == dispatches.deep_view(),
            taken.deep_view() == selected_dispatches(
                all.take(index as int),
                selected.deep_view(),
            ),
    {
        assert(all[index as int] == dispatches@[index as int].deep_view());
        assert(all.take(index as int + 1).drop_last() =~= all.take(index as int));
        if selected.contains(&index) {
            append(&mut taken, dispatches[index].duplicate());
        }
    }
    assert(all.take(all.len() as int) =~= all);
    taken
}

fn resolve_islands(plan: &mut VulkanDistributedExecutionPlan, phase: ExecutionPhase) -> (outcome:
    Result<(), VulkanDistributedPlanError>)
    ensures
        replay_agrees(
            outcome,
            final(plan).deep_view(),
            islands_resolved(old(plan).deep_view(), phase),
        ),
{
    let ghost before = plan.deep_view();
    let dispatches = plan.dispatches.as_slice();
    assert(dispatches.deep_view() =~= before.dispatches);
    match resolved_physical_execution_islands_for_phase(
        dispatches,
        plan.shared_activation_route,
        phase,
    ) {
        Err(error) => Err(error),
        Ok(islands) => {
            plan.execution_islands = islands;
            Ok(())
        },
    }
}

fn replay_cases<
    I: Fn(&VulkanDistributedExecutionPlan, &Vec<usize>, &String, usize) -> VulkanExecutableIdentity,
>(
    plan: &mut VulkanDistributedExecutionPlan,
    cases: &ExactCases,
    by_component: &OrderedMap<String, Vec<usize>>,
    identities: &DeviceIdentities,
    identity: &I,
) -> (outcome: Result<(), VulkanDistributedPlanError>)
    requires
        identifies(*identity),
    ensures
        replay_agrees(
            outcome,
            final(plan).deep_view(),
            replays_from(
                *identity,
                old(plan).deep_view(),
                cases.listing(),
                by_component.deep_view(),
                identities.deep_view(),
                0,
            ),
        ),
{
    let count: usize = cases.len();
    let ghost all = cases.listing();
    let ghost expected = replays_from(
        *identity,
        plan.deep_view(),
        all,
        by_component.deep_view(),
        identities.deep_view(),
        0,
    );
    for index in 0..count
        invariant
            identifies(*identity),
            count == all.len(),
            all == cases.listing(),
            expected == replays_from(
                *identity,
                old(plan).deep_view(),
                all,
                by_component.deep_view(),
                identities.deep_view(),
                0,
            ),
            expected == replays_from(
                *identity,
                plan.deep_view(),
                all,
                by_component.deep_view(),
                identities.deep_view(),
                index as nat,
            ),
    {
        let component_id = cases.key_at(index);
        let case = cases.value_at(index);
        let indices = list_indices_of(by_component, component_id);
        let distributed: bool = match case.strategy {
            VulkanPlacementExecutionStrategy::SingleDevice => false,
            VulkanPlacementExecutionStrategy::Serialized => false,
            _ => true,
        };
        if distributed {
            match replay_exact_distributed_component_case(
                plan,
                component_id.as_str(),
                &indices,
                case,
                identities,
                identity,
            ) {
                Err(error) => {
                    return Err(error);
                },
                Ok(_) => {},
            }
        }
    }
    Ok(())
}

/// Replays the measured cases of the components of a phase: keeps the dispatches that
/// were measured, and gives their shards the resources that they owned.
pub fn replay_exact_execution_cases_to_phase<
    I: Fn(&VulkanDistributedExecutionPlan, &Vec<usize>, &String, usize) -> VulkanExecutableIdentity,
>(
    execution_plan: &mut VulkanDistributedExecutionPlan,
    cases: &ExactCases,
    phase: ExecutionPhase,
    device_execution_identity_by_logical_device: &DeviceIdentities,
    runtime_fingerprint: &str,
    identity: &I,
) -> (outcome: Result<(), VulkanDistributedPlanError>)
    requires
        identifies(*identity),
    ensures
        replay_agrees(
            outcome,
            final(execution_plan).deep_view(),
            replayed_phase(
                *identity,
                old(execution_plan).deep_view(),
                cases.deep_view(),
                phase,
                runtime_fingerprint@,
                device_execution_identity_by_logical_device.deep_view(),
            ),
        ),
{
    if cases.is_empty() {
        return Ok(());
    }
    match resolve_islands(execution_plan, phase) {
        Err(error) => {
            return Err(error);
        },
        Ok(_) => {},
    }
    let available = list_component_dispatches(&execution_plan.dispatches);
    let selected = match select_dispatches(
        execution_plan,
        runtime_fingerprint,
        phase,
        cases,
        &available,
        identity,
    ) {
        Err(error) => {
            return Err(error);
        },
        Ok(selected) => selected,
    };
    match check_missing_cases(&available, cases, phase) {
        Err(error) => {
            return Err(error);
        },
        Ok(_) => {},
    }
    let taken = take_selected(&execution_plan.dispatches, &selected);
    execution_plan.dispatches = taken;
    match resolve_islands(execution_plan, phase) {
        Err(error) => {
            return Err(error);
        },
        Ok(_) => {},
    }
    let by_component = list_component_dispatches(&execution_plan.dispatches);
    match replay_cases(
        execution_plan,
        cases,
        &by_component,
        device_execution_identity_by_logical_device,
        identity,
    ) {
        Err(error) => {
            return Err(error);
        },
        Ok(_) => {},
    }
    resolve_islands(execution_plan, phase)
}

/// The plans with the measured cases of every phase replayed, and what came of it.
pub open spec fn replayed_set<
    I: Fn(&VulkanDistributedExecutionPlan, &Vec<usize>, &String, usize) -> VulkanExecutableIdentity,
>(
    identity: I,
    plans: VulkanDistributedExecutionPlanSetModel,
    decode_cases: ExactCasesModel,
    decode_batch_cases: ExactCasesModel,
    prefill_cases: ExactCasesModel,
    fingerprint: Seq<char>,
    identities: DeviceIdentitiesModel,
) -> (VulkanDistributedExecutionPlanSetModel, Result<(), Seq<char>>) {
    let decode = replayed_phase(
        identity,
        plans.decode,
        decode_cases,
        ExecutionPhase::Decode,
        fingerprint,
        identities,
    );
    let first = VulkanDistributedExecutionPlanSetModel { decode: decode.0, ..plans };
    match decode.1 {
        Err(message) => (first, Err(message)),
        Ok(_) => {
            let decode_batch = replayed_phase(
                identity,
                plans.decode_batch,
                decode_batch_cases,
                ExecutionPhase::Decode,
                fingerprint,
                identities,
            );
            let second = VulkanDistributedExecutionPlanSetModel {
                decode_batch: decode_batch.0,
                ..first
            };
            match decode_batch.1 {
                Err(message) => (second, Err(message)),
                Ok(_) => {
                    let prefill = replayed_phase(
                        identity,
                        plans.prefill,
                        prefill_cases,
                        ExecutionPhase::Prefill,
                        fingerprint,
                        identities,
                    );
                    (
                        VulkanDistributedExecutionPlanSetModel { prefill: prefill.0, ..second },
                        prefill.1,
                    )
                },
            }
        },
    }
}

/// The stores of the selected resources of plans could be planned, or could not.
pub open spec fn stores_gave<
    V: Fn(&VulkanDistributedExecutionPlanSet) -> Result<(), String>,
>(
    plan_stores: V,
    plans: VulkanDistributedExecutionPlanSetModel,
    outcome: Result<(), String>,
) -> bool {
    exists|of_plans: &VulkanDistributedExecutionPlanSet|
        of_plans.deep_view() == plans && #[trigger] call_ensures(plan_stores, (of_plans,), outcome)
}

/// The stores may be planned for the plans with all measured cases replayed, and where
/// replaying fails for none.
pub open spec fn stores_can_be_planned<
    V: Fn(&VulkanDistributedExecutionPlanSet) -> Result<(), String>,
>(
    plan_stores: V,
    expected: (VulkanDistributedExecutionPlanSetModel, Result<(), Seq<char>>),
) -> bool {
    expected.1 is Ok ==> forall|plans: &VulkanDistributedExecutionPlanSet|
        plans.deep_view() == expected.0 ==> #[trigger] call_requires(plan_stores, (plans,))
}

/// What replaying the measured cases of every phase comes to.
pub open spec fn application_gave<
    V: Fn(&VulkanDistributedExecutionPlanSet) -> Result<(), String>,
>(
    plan_stores: V,
    after: VulkanDistributedExecutionPlanSetModel,
    expected: (VulkanDistributedExecutionPlanSetModel, Result<(), Seq<char>>),
    outcome: Result<(), VulkanDistributedPlanError>,
) -> bool {
    &&& after == expected.0
    &&& match expected.1 {
        Err(message) => outcome is Err && outcome->Err_0.0@ == message,
        Ok(_) => match outcome {
            Ok(_) => stores_gave(plan_stores, after, Ok::<(), String>(())),
            Err(error) => stores_gave(plan_stores, after, Err::<(), String>(error.0)),
        },
    }
}

impl VulkanDistributedExecutionPlanSet {
    /// Replays the measured cases of every phase, and checks that the stores of the
    /// selected resources can be planned.
    pub fn apply_exact_execution_cases<
        I: Fn(
            &VulkanDistributedExecutionPlan,
            &Vec<usize>,
            &String,
            usize,
        ) -> VulkanExecutableIdentity,
        V: Fn(&VulkanDistributedExecutionPlanSet) -> Result<(), String>,
    >(
        &mut self,
        decode_cases: &ExactCases,
        decode_batch_cases: &ExactCases,
        prefill_cases: &ExactCases,
        device_execution_identity_by_logical_device: &DeviceIdentities,
        runtime_fingerprint: &str,
        identity: &I,
        plan_stores: &V,
    ) -> (outcome: Result<(), VulkanDistributedPlanError>)
        requires
            identifies(*identity),
            stores_can_be_planned(
                *plan_stores,
                replayed_set(
                    *identity,
                    old(self).deep_view(),
                    decode_cases.deep_view(),
                    decode_batch_cases.deep_view(),
                    prefill_cases.deep_view(),
                    runtime_fingerprint@,
                    device_execution_identity_by_logical_device.deep_view(),
                ),
            ),
        ensures
            application_gave(
                *plan_stores,
                final(self).deep_view(),
                replayed_set(
                    *identity,
                    old(self).deep_view(),
                    decode_cases.deep_view(),
                    decode_batch_cases.deep_view(),
                    prefill_cases.deep_view(),
                    runtime_fingerprint@,
                    device_execution_identity_by_logical_device.deep_view(),
                ),
                outcome,
            ),
    {
        match replay_exact_execution_cases_to_phase(
            &mut self.decode,
            decode_cases,
            ExecutionPhase::Decode,
            device_execution_identity_by_logical_device,
            runtime_fingerprint,
            identity,
        ) {
            Err(error) => {
                return Err(error);
            },
            Ok(_) => {},
        }
        match replay_exact_execution_cases_to_phase(
            &mut self.decode_batch,
            decode_batch_cases,
            ExecutionPhase::Decode,
            device_execution_identity_by_logical_device,
            runtime_fingerprint,
            identity,
        ) {
            Err(error) => {
                return Err(error);
            },
            Ok(_) => {},
        }
        match replay_exact_execution_cases_to_phase(
            &mut self.prefill,
            prefill_cases,
            ExecutionPhase::Prefill,
            device_execution_identity_by_logical_device,
            runtime_fingerprint,
            identity,
        ) {
            Err(error) => {
                return Err(error);
            },
            Ok(_) => {},
        }
        let stores = plan_stores(&*self);
        let ghost given = stores;
        assert(call_ensures(*plan_stores, (&*self,), given));
        assert(stores_gave(*plan_stores, self.deep_view(), given));
        match stores {
            Err(reason) => Err(VulkanDistributedPlanError(reason)),
            Ok(unit) => {
                assert(unit == ());
                Ok(())
            },
        }
    }
}

} // verus!
