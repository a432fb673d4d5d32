//! Measured executions as executions of the components of a plan.
use vstd::prelude::*;

use crate::errors::{plan_agrees, VulkanDistributedPlanError};
use crate::exact_coverage::{
    dispatch_case_text, exact_case_error, exact_operations_are_structurally_equivalent,
    exact_runtime_selected_resource_fragments,
    exact_selected_resource_fragments_are_structurally_equivalent, fault_agrees,
    name_dispatch_case, occurrences, runtime_fragments, same_fragments, same_operations,
};
use crate::execution_plans::{
    VulkanDistributedDispatchPlan, VulkanDistributedDispatchPlanModel,
    VulkanDistributedExecutionPlan, VulkanDistributedExecutionPlanModel,
};
use crate::ordered::{ordered_keys, ordered_values, OrderedMap};
use crate::placement::{
    VulkanPlacementEquivalenceIdentity, VulkanPlacementExecutionCaseIdentity,
    VulkanPlacementExecutionCaseIdentityModel, VulkanPlacementExecutionStrategy,
    VulkanPlacementOperationGeometry, VulkanPlacementOperationGeometryModel,
    VulkanPlacementShardIdentity, VulkanPlacementShardIdentityModel,
};
use crate::sequences::index_from;
use crate::text::{debug_text, decimal, decimal_text, join3, quoted};
use crate::values::PlainValue;

verus! {

/// What identifies the executable of dispatches, as far as it can be found.
pub struct VulkanExecutableIdentity {
    pub artifact_digest: Result<String, String>,
    pub operations: Result<Vec<VulkanPlacementOperationGeometry>, String>,
    pub execution_graph_digest: Result<String, String>,
    pub equivalence: Result<VulkanPlacementEquivalenceIdentity, String>,
    pub strategy: Result<VulkanPlacementExecutionStrategy, String>,
}

/// The model of [`VulkanExecutableIdentity`].
pub struct VulkanExecutableIdentityModel {
    pub artifact_digest: Result<Seq<char>, Seq<char>>,
    pub operations: Result<Seq<VulkanPlacementOperationGeometryModel>, Seq<char>>,
    pub execution_graph_digest: Result<Seq<char>, Seq<char>>,
    pub equivalence: Result<VulkanPlacementEquivalenceIdentity, Seq<char>>,
    pub strategy: Result<VulkanPlacementExecutionStrategy, Seq<char>>,
}

/// The model of what was found, or of the reason why it was not.
pub open spec fn found_model<T: DeepView>(found: Result<T, String>) -> Result<T::V, Seq<char>> {
    match found {
        Ok(value) => Ok(value.deep_view()),
        Err(reason) => Err(reason@),
    }
}

impl DeepView for VulkanExecutableIdentity {
    type V = VulkanExecutableIdentityModel;

    open spec fn deep_view(&self) -> VulkanExecutableIdentityModel {
        VulkanExecutableIdentityModel {
            artifact_digest: found_model(self.artifact_digest),
            operations: found_model(self.operations),
            execution_graph_digest: found_model(self.execution_graph_digest),
            equivalence: found_model(self.equivalence),
            strategy: found_model(self.strategy),
        }
    }
}

/// The identity that was found for dispatches of a plan, a signature and a number of
/// devices.
pub open spec fn identity_found<
    I: Fn(&VulkanDistributedExecutionPlan, &Vec<usize>, &String, usize) -> VulkanExecutableIdentity,
>(
    identity: I,
    plan: VulkanDistributedExecutionPlanModel,
    dispatch_indices: Seq<usize>,
    signature: Seq<char>,
    device_count: usize,
    found: VulkanExecutableIdentityModel,
) -> bool {
    exists|
        of_plan: &VulkanDistributedExecutionPlan,
        indices: &Vec<usize>,
        signed: &String,
        given: VulkanExecutableIdentity,
    | #[trigger]
        call_ensures(identity, (of_plan, indices, signed, device_count), given)
            && of_plan.deep_view() == plan && indices.deep_view() == dispatch_indices && signed@
            == signature && given.deep_view() == found
}

/// An identity can always be asked for, and depends on nothing but what it is asked of.
pub open spec fn identifies<
    I: Fn(&VulkanDistributedExecutionPlan, &Vec<usize>, &String, usize) -> VulkanExecutableIdentity,
>(identity: I) -> bool {
    &&& forall|
        plan: &VulkanDistributedExecutionPlan,
        indices: &Vec<usize>,
        signature: &String,
        device_count: usize,
    | #[trigger]
        call_requires(identity, (plan, indices, signature, device_count))
    &&& forall|
        plan: VulkanDistributedExecutionPlanModel,
        indices: Seq<usize>,
        signature: Seq<char>,
        device_count: usize,
        first: VulkanExecutableIdentityModel,
        second: VulkanExecutableIdentityModel,
    |
        #![trigger
            identity_found(identity, plan, indices, signature, device_count, first),
            identity_found(identity, plan, indices, signature, device_count, second)]
        identity_found(identity, plan, indices, signature, device_count, first)
            && identity_found(identity, plan, indices, signature, device_count, second) ==> first
            == second
}

/// The identity of dispatches of a plan.
pub open spec fn identity_of<
    I: Fn(&VulkanDistributedExecutionPlan, &Vec<usize>, &String, usize) -> VulkanExecutableIdentity,
>(
    identity: I,
    plan: VulkanDistributedExecutionPlanModel,
    dispatch_indices: Seq<usize>,
    signature: Seq<char>,
    device_count: usize,
) -> VulkanExecutableIdentityModel {
    choose|found: VulkanExecutableIdentityModel| #[trigger]
        identity_found(identity, plan, dispatch_indices, signature, device_count, found)
}

/// Finds the identity of dispatches of a plan.
pub(crate) fn find_identity<
    I: Fn(&VulkanDistributedExecutionPlan, &Vec<usize>, &String, usize) -> VulkanExecutableIdentity,
>(
    identity: &I,
    plan: &VulkanDistributedExecutionPlan,
    dispatch_indices: &Vec<usize>,
    signature: &String,
    device_count: usize,
) -> (found: VulkanExecutableIdentity)
    requires
        identifies(*identity),
    ensures
        found.deep_view() == identity_of(
            *identity,
            plan.deep_view(),
            dispatch_indices.deep_view(),
            signature@,
            device_count,
        ),
{
    let given = identity(plan, dispatch_indices, signature, device_count);
    assert(call_ensures(*identity, (plan, dispatch_indices, signature, device_count), given));
    assert(identity_found(
        *identity,
        plan.deep_view(),
        dispatch_indices.deep_view(),
        signature@,
        device_count,
        given.deep_view(),
    ));
    given
}

/// The text of an error about a measured component.
pub open spec fn case_text(component_id: Seq<char>, message: Seq<char>) -> Seq<char> {
    "exact case for component "@ + debug_text(component_id) + message
}

pub(crate) fn case_error<T>(component_id: &str, message: &str) -> (outcome: Result<
    T,
    VulkanDistributedPlanError,
>)
    ensures
        outcome is Err,
        outcome->Err_0.0@ == case_text(component_id@, message@),
{
    exact_case_error(
        join3("exact case for component ", quoted(component_id).as_str(), message),
    )
}

/// The contracts of dispatches with their implementations, from an index on, or the
/// text of the error.
pub open spec fn contracts_from(
    dispatches: Seq<VulkanDistributedDispatchPlanModel>,
    dispatch_indices: Seq<usize>,
    component_id: Seq<char>,
    index: nat,
    contracts: Map<Seq<char>, Seq<char>>,
) -> Result<Map<Seq<char>, Seq<char>>, Seq<char>>
    decreases dispatch_indices.len() - index,
{
    if index >= dispatch_indices.len() {
        Ok(contracts)
    } else if dispatch_indices[index as int] >= dispatches.len() {
        Err(case_text(component_id, " references a runtime dispatch outside the plan"@))
    } else {
        let dispatch = dispatches[dispatch_indices[index as int] as int];
        let contract_id = dispatch.physical_execution_contract_id;
        if contracts.contains_key(contract_id) && contracts[contract_id]
            != dispatch.implementation_digest {
            Err(
                "compiled component "@ + debug_text(component_id)
                    + " repeats one physical contract with conflicting implementations"@,
            )
        } else {
            contracts_from(
                dispatches,
                dispatch_indices,
                component_id,
                index + 1,
                contracts.insert(contract_id, dispatch.implementation_digest),
            )
        }
    }
}

/// Lists the contracts of dispatches with their implementations.
pub(crate) fn list_runtime_contracts(
    plan: &VulkanDistributedExecutionPlan,
    dispatch_indices: &Vec<usize>,
    component_id: &str,
) -> (outcome: Result<OrderedMap<String, String>, VulkanDistributedPlanError>)
    ensures
        plan_agrees(
            outcome,
            contracts_from(
                plan.deep_view().dispatches,
                dispatch_indices.deep_view(),
                component_id@,
                0,
                Map::empty(),
            ),
        ),
        outcome is Ok ==> forall|i: int|
            0 <= i < dispatch_indices.len() ==> #[trigger] dispatch_indices@[i]
                < plan.dispatches.len(),
{
    let ghost dispatches = plan.deep_view().dispatches;
    let ghost all = dispatch_indices.deep_view();
    let mut contracts: OrderedMap<String, String> = OrderedMap::new();
    for index in 0..dispatch_indices.len()
        invariant
            dispatches == plan.dispatches.deep_view(),
            dispatches == plan.deep_view().dispatches,
            all == dispatch_indices.deep_view(),
            forall|i: int|
                0 <= i < index ==> #[trigger] dispatch_indices@[i] < plan.dispatches.len(),
            contracts_from(dispatches, all, component_id@, 0, Map::empty()) == contracts_from(
                dispatches,
                all,
                component_id@,
                index as nat,
                contracts.deep_view(),
            ),
    {
        let dispatch_index: usize = dispatch_indices[index];
        assert(all[index as int] == dispatch_index);
        if dispatch_index >= plan.dispatches.len() {
            return case_error(
                component_id,
                " references a runtime dispatch outside the plan",
            );
        }
        let dispatch = &plan.dispatches[dispatch_index];
        assert(dispatches[dispatch_index as int] == dispatch.deep_view());
        let conflicting: bool = match contracts.insert(
            dispatch.physical_execution_contract_id.clone(),
            dispatch.implementation_digest.clone(),
        ) {
            None => false,
            Some(existing) => existing != dispatch.implementation_digest,
        };
        if conflicting {
            return exact_case_error(
                join3(
                    "compiled component ",
                    quoted(component_id).as_str(),
                    " repeats one physical contract with conflicting implementations",
                ),
            );
        }
    }
    Ok(contracts)
}

/// The texts are the same, in whatever order.
pub open spec fn same_texts(left: Seq<Seq<char>>, right: Seq<Seq<char>>) -> bool {
    forall|text: Seq<char>| #[trigger] occurrences(left, text) == occurrences(right, text)
}

proof fn lemma_occurs(texts: Seq<Seq<char>>, text: Seq<char>)
    ensures
        occurrences(texts, text) > 0 <==> texts.contains(text),
        occurrences(texts, text) <= texts.len(),
    decreases texts.len(),
{
    if texts.len() > 0 {
        lemma_occurs(texts.drop_last(), text);
        if texts.contains(text) {
            let k = choose|k: int| 0 <= k < texts.len() && texts[k] == text;
            if k < texts.len() - 1 {
                assert(texts.drop_last()[k] == text);
            }
        }
        if texts.last() == text {
            assert(texts[texts.len() - 1] == text);
        } else if texts.drop_last().contains(text) {
            let k = choose|k: int| 0 <= k < texts.len() - 1 && texts.drop_last()[k] == text;
            assert(texts[k] == text);
        }
    }
}

fn count_occurrences(texts: &Vec<String>, text: &String) -> (count: usize)
    ensures
        count == occurrences(texts.deep_view(), text@),
{
    let ghost all = texts.deep_view();
    let mut count: usize = 0;
    assert(all.take(0) =~= Seq::empty());
    for index in 0..texts.len()
        invariant
            all == texts.deep_view(),
            count == occurrences(all.take(index as int), text@),
            count <= index,
    {
        assert(all[index as int] == texts@[index as int]@);
        assert(all.take(index as int + 1).drop_last() =~= all.take(index as int));
        if texts[index] == *text {
            count += 1;
        }
    }
    assert(all.take(all.len() as int) =~= all);
    count
}

fn occurs_as_often(texts: &Vec<String>, left: &Vec<String>, right: &Vec<String>) -> (result: bool)
    ensures
        result == (forall|i: int|
            #![trigger texts@[i]]
            0 <= i < texts.len() ==> occurrences(left.deep_view(), texts@[i]@) == occurrences(
                right.deep_view(),
                texts@[i]@,
            )),
{
    for index in 0..texts.len()
        invariant
            forall|i: int|
                #![trigger texts@[i]]
                0 <= i < index ==> occurrences(left.deep_view(), texts@[i]@) == occurrences(
                    right.deep_view(),
                    texts@[i]@,
                ),
    {
        if count_occurrences(left, &texts[index]) != count_occurrences(right, &texts[index]) {
            assert(occurrences(left.deep_view(), texts@[index as int]@) != occurrences(
                right.deep_view(),
                texts@[index as int]@,
            ));
            return false;
        }
    }
    true
}

/// Whether the texts are the same, in whatever order.
pub fn texts_are_same(left: &Vec<String>, right: &Vec<String>) -> (result: bool)
    ensures
        result == same_texts(left.deep_view(), right.deep_view()),
{
    let ghost first = left.deep_view();
    let ghost second = right.deep_view();
    let in_left: bool = occurs_as_often(left, left, right);
    let in_right: bool = occurs_as_often(right, left, right);
    proof {
        if in_left && in_right {
            assert forall|text: Seq<char>| #[trigger] occurrences(first, text) == occurrences(
                second,
                text,
            ) by {
                lemma_occurs(first, text);
                lemma_occurs(second, text);
                if first.contains(text) {
                    let k = choose|k: int| 0 <= k < first.len() && first[k] == text;
                    assert(left@[k]@ == text);
                } else if second.contains(text) {
                    let k = choose|k: int| 0 <= k < second.len() && second[k] == text;
                    assert(right@[k]@ == text);
                }
            }
        }
    }
    in_left && in_right
}

/// What is wrong with a case that was measured for an executable, where the operations
/// are compared as told.
pub open spec fn executable_fault(
    identity: VulkanExecutableIdentityModel,
    case: VulkanPlacementExecutionCaseIdentityModel,
    component_id: Seq<char>,
    same_labels: bool,
) -> Option<Seq<char>> {
    match identity.artifact_digest {
        Err(message) => Some(message),
        Ok(artifact_digest) => if artifact_digest != case.artifact_digest {
            Some(case_text(component_id, " was measured with different executable artifacts"@))
        } else {
            match identity.operations {
                Err(message) => Some(message),
                Ok(operations) => if if same_labels {
                    operations != case.operations
                } else {
                    !same_operations(case.operations, operations)
                } {
                    Some(
                        case_text(component_id, " was measured with different operation geometry"@),
                    )
                } else {
                    match identity.execution_graph_digest {
                        Err(message) => Some(message),
                        Ok(graph_digest) => if graph_digest != case.execution_graph_digest {
                            Some(
                                case_text(
                                    component_id,
                                    " was measured with a different distributed execution graph"@,
                                ),
                            )
                        } else {
                            match identity.equivalence {
                                Err(message) => Some(message),
                                Ok(equivalence) => if equivalence != case.equivalence {
                                    Some(
                                        case_text(
                                            component_id,
                                            " was measured with different output or state equivalence"@,
                                        ),
                                    )
                                } else {
                                    None
                                },
                            }
                        },
                    }
                },
            }
        },
    }
}

fn check_executable(
    identity: &VulkanExecutableIdentity,
    case: &VulkanPlacementExecutionCaseIdentity,
    component_id: &str,
    same_labels: bool,
) -> (outcome: Result<(), VulkanDistributedPlanError>)
    ensures
        fault_agrees(
            outcome,
            executable_fault(
                identity.deep_view(),
                case.deep_view(),
                component_id@,
                same_labels,
            ),
        ),
{
    match &identity.artifact_digest {
        Err(reason) => {
            return exact_case_error(reason.clone());
        },
        Ok(artifact_digest) => {
            if *artifact_digest != case.artifact_digest {
                return case_error(
                    component_id,
                    " was measured with different executable artifacts",
                );
            }
        },
    }
    match &identity.operations {
        Err(reason) => {
            return exact_case_error(reason.clone());
        },
        Ok(operations) => {
            let differs: bool = if same_labels {
                !operations.same(&case.operations)
            } else {
                !exact_operations_are_structurally_equivalent(&case.operations, operations)
            };
            if differs {
                return case_error(
                    component_id,
                    " was measured with different operation geometry",
                );
            }
        },
    }
    match &identity.execution_graph_digest {
        Err(reason) => {
            return exact_case_error(reason.clone());
        },
        Ok(graph_digest) => {
            if *graph_digest != case.execution_graph_digest {
                return case_error(
                    component_id,
                    " was measured with a different distributed execution graph",
                );
            }
        },
    }
    match &identity.equivalence {
        Err(reason) => {
            return exact_case_error(reason.clone());
        },
        Ok(equivalence) => {
            if *equivalence != case.equivalence {
                return case_error(
                    component_id,
                    " was measured with different output or state equivalence",
                );
            }
        },
    }
    Ok(())
}

/// Checks that a case was measured for the executable of dispatches.
pub fn validate_exact_case_executable_identity<
    I: Fn(&VulkanDistributedExecutionPlan, &Vec<usize>, &String, usize) -> VulkanExecutableIdentity,
>(
    execution_plan: &VulkanDistributedExecutionPlan,
    component_id: &str,
    dispatch_indices: &Vec<usize>,
    case: &VulkanPlacementExecutionCaseIdentity,
    identity: &I,
) -> (outcome: Result<(), VulkanDistributedPlanError>)
    requires
        identifies(*identity),
    ensures
        fault_agrees(
            outcome,
            executable_fault(
                case_identity(
                    *identity,
                    execution_plan.deep_view(),
                    dispatch_indices.deep_view(),
                    case.deep_view(),
                ),
                case.deep_view(),
                component_id@,
                true,
            ),
        ),
{
    let found = find_identity(
        identity,
        execution_plan,
        dispatch_indices,
        &case.behavior.compiled_execution_signature,
        case.devices.len(),
    );
    check_executable(&found, case, component_id, true)
}

/// The identity of dispatches of a plan, as a case asks for it.
pub open spec fn case_identity<
    I: Fn(&VulkanDistributedExecutionPlan, &Vec<usize>, &String, usize) -> VulkanExecutableIdentity,
>(
    identity: I,
    plan: VulkanDistributedExecutionPlanModel,
    dispatch_indices: Seq<usize>,
    case: VulkanPlacementExecutionCaseIdentityModel,
) -> VulkanExecutableIdentityModel {
    identity_of(
        identity,
        plan,
        dispatch_indices,
        case.behavior.compiled_execution_signature,
        case.devices.len() as usize,
    )
}

/// The shard belongs to a participant of a dispatch.
pub open spec fn is_place(dispatch_ordinal: usize, participant_ordinal: usize) -> spec_fn(
    VulkanPlacementShardIdentityModel,
) -> bool {
    |shard: VulkanPlacementShardIdentityModel|
        shard.dispatch_ordinal == dispatch_ordinal && shard.participant_ordinal
            == participant_ordinal
}

/// The measured shards with the fragments of the participants of a dispatch from an
/// index on, or the text of the error.
pub open spec fn participants_rebound_from(
    dispatch: VulkanDistributedDispatchPlanModel,
    component_id: Seq<char>,
    dispatch_ordinal: usize,
    index: nat,
    shards: Seq<VulkanPlacementShardIdentityModel>,
) -> Result<Seq<VulkanPlacementShardIdentityModel>, Seq<char>>
    decreases dispatch.shards.len() - index,
{
    let prefix = dispatch_case_text(component_id, dispatch_ordinal);
    if index >= dispatch.shards.len() {
        Ok(shards)
    } else {
        match index_from(shards, 0, is_place(dispatch_ordinal, index as usize)) {
            None => Err(prefix + " omits participant ordinal "@ + decimal_text(index)),
            Some(place) => match runtime_fragments(
                dispatch.selected_resource_partitions,
                dispatch.shards[index as int],
            ) {
                Err(message) => Err(message),
                Ok(fragments) => if !same_fragments(
                    shards[place as int].selected_resource_fragments_by_partition,
                    fragments,
                ) {
                    Err(
                        prefix
                            + " was measured with different selected-resource fragment geometry"@,
                    )
                } else {
                    participants_rebound_from(
                        dispatch,
                        component_id,
                        dispatch_ordinal,
                        index + 1,
                        shards.update(
                            place as int,
                            VulkanPlacementShardIdentityModel {
                                selected_resource_fragments_by_partition: fragments,
                                ..shards[place as int]
                            },
                        ),
                    )
                },
            },
        }
    }
}

/// The measured shards with the fragments of the dispatches from an ordinal on, or the
/// text of the error.
pub open spec fn shards_rebound_from(
    dispatches: Seq<VulkanDistributedDispatchPlanModel>,
    dispatch_indices: Seq<usize>,
    component_id: Seq<char>,
    ordinal: nat,
    shards: Seq<VulkanPlacementShardIdentityModel>,
) -> Result<Seq<VulkanPlacementShardIdentityModel>, Seq<char>>
    decreases dispatch_indices.len() - ordinal,
{
    if ordinal >= dispatch_indices.len() {
        Ok(shards)
    } else {
        match participants_rebound_from(
            dispatches[dispatch_indices[ordinal as int] as int],
            component_id,
            ordinal as usize,
            0,
            shards,
        ) {
            Err(message) => Err(message),
            Ok(next) => shards_rebound_from(
                dispatches,
                dispatch_indices,
                component_id,
                ordinal + 1,
                next,
            ),
        }
    }
}

/// A measured case as a case of the component of a plan, or the text of the error.
pub open spec fn rebound_case(
    identity: VulkanExecutableIdentityModel,
    plan: VulkanDistributedExecutionPlanModel,
    component_id: Seq<char>,
    dispatch_indices: Seq<usize>,
    case: VulkanPlacementExecutionCaseIdentityModel,
) -> Result<VulkanPlacementExecutionCaseIdentityModel, Seq<char>> {
    match contracts_from(plan.dispatches, dispatch_indices, component_id, 0, Map::empty()) {
        Err(message) => Err(message),
        Ok(contracts) => {
            let contract_ids = ordered_keys::<String, Seq<char>>(contracts);
            let implementation_digests = ordered_values::<String, Seq<char>>(contracts);
            if case.contract_ids.len() != contract_ids.len() || !same_texts(
                case.implementation_digests,
                implementation_digests,
            ) {
                Err(
                    case_text(
                        component_id,
                        " was measured with different physical execution contracts or implementations"@,
                    ),
                )
            } else {
                match executable_fault(identity, case, component_id, false) {
                    Some(message) => Err(message),
                    None => match shards_rebound_from(
                        plan.dispatches,
                        dispatch_indices,
                        component_id,
                        0,
                        case.shards,
                    ) {
                        Err(message) => Err(message),
                        Ok(shards) => Ok(
                            VulkanPlacementExecutionCaseIdentityModel {
                                contract_ids,
                                implementation_digests,
                                artifact_digest: identity.artifact_digest->Ok_0,
                                operations: identity.operations->Ok_0,
                                execution_graph_digest: identity.execution_graph_digest->Ok_0,
                                equivalence: identity.equivalence->Ok_0,
                                shards,
                                ..case
                            },
                        ),
                    },
                }
            }
        },
    }
}

pub(crate) fn find_place(
    shards: &Vec<VulkanPlacementShardIdentity>,
    dispatch_ordinal: usize,
    participant_ordinal: usize,
) -> (found: Option<usize>)
    ensures
        match found {
            Some(index) => index < shards.len() && index_from(
                shards.deep_view(),
                0,
                is_place(dispatch_ordinal, participant_ordinal),
            ) == Some(index as nat),
            None => index_from(
                shards.deep_view(),
                0,
                is_place(dispatch_ordinal, participant_ordinal),
            ) is None,
        },
{
    let ghost all = shards.deep_view();
    let ghost condition = is_place(dispatch_ordinal, participant_ordinal);
    for index in 0..shards.len()
        invariant
            all == shards.deep_view(),
            condition == is_place(dispatch_ordinal, participant_ordinal),
            index_from(all, 0, condition) == index_from(all, index as nat, condition),
    {
        assert(all[index as int] == shards@[index as int].deep_view());
        if shards[index].dispatch_ordinal == dispatch_ordinal && shards[index].participant_ordinal
            == participant_ordinal {
            return Some(index);
        }
    }
    None
}

fn rebind_participants(
    dispatch: &VulkanDistributedDispatchPlan,
    component_id: &str,
    dispatch_ordinal: usize,
    shards: &mut Vec<VulkanPlacementShardIdentity>,
) -> (outcome: Result<(), VulkanDistributedPlanError>)
    ensures
        match outcome {
            Ok(_) => participants_rebound_from(
                dispatch.deep_view(),
                component_id@,
                dispatch_ordinal,
                0,
                old(shards).deep_view(),
            ) == Ok::<Seq<VulkanPlacementShardIdentityModel>, Seq<char>>(
                final(shards).deep_view(),
            ),
            Err(error) => participants_rebound_from(
                dispatch.deep_view(),
                component_id@,
                dispatch_ordinal,
                0,
                old(shards).deep_view(),
            ) == Err::<Seq<VulkanPlacementShardIdentityModel>, Seq<char>>(error.0@),
        },
{
    let ghost model = dispatch.deep_view();
    let ghost expected = participants_rebound_from(
        model,
        component_id@,
        dispatch_ordinal,
        0,
        shards.deep_view(),
    );
    for index in 0..dispatch.shards.len()
        invariant
            model == dispatch.deep_view(),
            expected == participants_rebound_from(
                model,
                component_id@,
                dispatch_ordinal,
                0,
                old(shards).deep_view(),
            ),
            expected == participants_rebound_from(
                model,
                component_id@,
                dispatch_ordinal,
                index as nat,
                shards.deep_view(),
            ),
    {
        assert(model.shards[index as int] == dispatch.shards@[index as int].deep_view());
        let prefix = name_dispatch_case(component_id, dispatch_ordinal);
        let place: usize = match find_place(shards, dispatch_ordinal, index) {
            None => {
                return exact_case_error(
                    join3(
                        prefix.as_str(),
                        " omits participant ordinal ",
                        decimal(index).as_str(),
                    ),
                );
            },
            Some(place) => place,
        };
        let ghost before = shards.deep_view();
        assert(before[place as int] == shards@[place as int].deep_view());
        let fragments = match exact_runtime_selected_resource_fragments(
            &dispatch.selected_resource_partitions,
            &dispatch.shards[index],
        ) {
            Err(error) => {
                return Err(error);
            },
            Ok(fragments) => fragments,
        };
        if !exact_selected_resource_fragments_are_structurally_equivalent(
            &shards[place].selected_resource_fragments_by_partition,
            &fragments,
        ) {
            return exact_case_error(
                crate::text::join2(
                    prefix.as_str(),
                    " was measured with different selected-resource fragment geometry",
                ),
            );
        }
        let ghost given = fragments.deep_view();
        shards[place].selected_resource_fragments_by_partition = fragments;
        assert(shards.deep_view() =~= before.update(
            place as int,
            VulkanPlacementShardIdentityModel {
                selected_resource_fragments_by_partition: given,
                ..before[place as int]
            },
        ));
    }
    Ok(())
}

/// Makes a measured case a case of the component of a plan: the sizes have to be the
/// same, and the labels become those of the component.
pub fn rebind_exact_execution_case_to_runtime_component<
    I: Fn(&VulkanDistributedExecutionPlan, &Vec<usize>, &String, usize) -> VulkanExecutableIdentity,
>(
    execution_plan: &VulkanDistributedExecutionPlan,
    component_id: &str,
    dispatch_indices: &Vec<usize>,
    measured_case: &VulkanPlacementExecutionCaseIdentity,
    identity: &I,
) -> (outcome: Result<VulkanPlacementExecutionCaseIdentity, VulkanDistributedPlanError>)
    requires
        identifies(*identity),
    ensures
        plan_agrees(
            outcome,
            rebound_case(
                case_identity(
                    *identity,
                    execution_plan.deep_view(),
                    dispatch_indices.deep_view(),
                    measured_case.deep_view(),
                ),
                execution_plan.deep_view(),
                component_id@,
                dispatch_indices.deep_view(),
                measured_case.deep_view(),
            ),
        ),
        outcome is Ok ==> forall|i: int|
            0 <= i < dispatch_indices.len() ==> #[trigger] dispatch_indices@[i]
                < execution_plan.dispatches.len(),
{
    let contracts = match list_runtime_contracts(execution_plan, dispatch_indices, component_id) {
        Err(error) => {
            return Err(error);
        },
        Ok(contracts) => contracts,
    };
    let contract_ids = contracts.to_keys();
    let implementation_digests = contracts.to_values();
    if measured_case.contract_ids.len() != contract_ids.len() || !texts_are_same(
        &measured_case.implementation_digests,
        &implementation_digests,
    ) {
        return case_error(
            component_id,
            " was measured with different physical execution contracts or implementations",
        );
    }
    let found = find_identity(
        identity,
        execution_plan,
        dispatch_indices,
        &measured_case.behavior.compiled_execution_signature,
        measured_case.devices.len(),
    );
    match check_executable(&found, measured_case, component_id, false) {
        Err(error) => {
            return Err(error);
        },
        Ok(_) => {},
    }
    let ghost dispatches = execution_plan.deep_view().dispatches;
    let ghost indices = dispatch_indices.deep_view();
    let mut shards = measured_case.shards.duplicate();
    let ghost expected = shards_rebound_from(
        dispatches,
        indices,
        component_id@,
        0,
        shards.deep_view(),
    );
    for ordinal in 0..dispatch_indices.len()
        invariant
            dispatches == execution_plan.dispatches.deep_view(),
            indices == dispatch_indices.deep_view(),
            forall|i: int|
                0 <= i < dispatch_indices.len() ==> #[trigger] dispatch_indices@[i]
                    < execution_plan.dispatches.len(),
            expected == shards_rebound_from(
                dispatches,
                indices,
                component_id@,
                ordinal as nat,
                shards.deep_view(),
            ),
            rebound_case(
                found.deep_view(),
                execution_plan.deep_view(),
                component_id@,
                indices,
                measured_case.deep_view(),
            ) is Err <==> expected is Err,
            expected is Err ==> rebound_case(
                found.deep_view(),
                execution_plan.deep_view(),
                component_id@,
                indices,
                measured_case.deep_view(),
            )->Err_0 == expected->Err_0,
            found.deep_view() == case_identity(
                *identity,
                execution_plan.deep_view(),
                indices,
                measured_case.deep_view(),
            ),
    {
        let dispatch_index: usize = dispatch_indices[ordinal];
        assert(indices[ordinal as int] == dispatch_index);
        assert(dispatches[dispatch_index as int]
            == execution_plan.dispatches@[dispatch_index as int].deep_view());
        match rebind_participants(
            &execution_plan.dispatches[dispatch_index],
            component_id,
            ordinal,
            &mut shards,
        ) {
            Err(error) => {
                return Err(error);
            },
            Ok(_) => {},
        }
    }
    let mut rebound = measured_case.duplicate();
    rebound.contract_ids = contract_ids;
    rebound.implementation_digests = implementation_digests;
    match found.artifact_digest {
        Ok(artifact_digest) => {
            rebound.artifact_digest = artifact_digest;
        },
        Err(_) => {},
    }
    match found.operations {
        Ok(operations) => {
            rebound.operations = operations;
        },
        Err(_) => {},
    }
    match found.execution_graph_digest {
        Ok(graph_digest) => {
            rebound.execution_graph_digest = graph_digest;
        },
        Err(_) => {},
    }
    match found.equivalence {
        Ok(equivalence) => {
            rebound.equivalence = equivalence;
        },
        Err(_) => {},
    }
    rebound.shards = shards;
    Ok(rebound)
}

} // verus!
