//! Choosing the contract by which a dispatch is distributed.
use vstd::prelude::*;

use crate::contracts::{
    ArtifactRole, ContractArtifactModel, ExecutionPhase, ExecutionShape, PartitionLaunch,
    PartitionLaunchModel, PartitionOrigin, PhysicalExecutionContract,
    PhysicalExecutionContractModel, WorkgroupXMapping,
};
use crate::errors::{plan_agrees, VulkanDistributedPlanError};
use crate::execution_plans::{
    VulkanPhysicalExecutionResidencyKind, VulkanPhysicalExecutionResidencyRequirement,
    VulkanPhysicalExecutionResidencyRequirementModel,
};
use crate::ordered::{ordered_listing, OrderedMap};
use crate::planning::dispatch_error;
use crate::prepared::{
    VulkanDescriptorResourceAddress, VulkanDescriptorResourceAddressModel,
    VulkanKernelScalarBinding, VulkanKernelScalarBindingModel, VulkanKernelScalarSource,
    VulkanPhysicalKernelArtifact, VulkanPhysicalKernelArtifactManifest,
    VulkanPhysicalKernelArtifactManifestModel, VulkanPhysicalKernelArtifactModel,
    VulkanPreparedDescriptorModel, VulkanPreparedDispatch, VulkanPreparedDispatchModel,
};
use crate::sequences::{append, find_from, fold_from, holds, kept, lemma_kept_step};
use crate::text::{
    debug_text, decimal, decimal_text, join2, join3, join4, join5, join6, listed, listed_text,
    quoted,
};
use crate::values::PlainValue;

verus! {

/// What the owner of a dispatch keeps resident for a descriptor: the kind, the
/// name and the bytes.
pub open spec fn owner_resource(resource: VulkanDescriptorResourceAddressModel) -> Option<
    (VulkanPhysicalExecutionResidencyKind, Seq<char>, usize),
> {
    match resource {
        VulkanDescriptorResourceAddressModel::RuntimeControl { runtime_source, byte_capacity } =>
            Some(
            (
                VulkanPhysicalExecutionResidencyKind::OwnerControl,
                "runtime:"@ + runtime_source,
                byte_capacity,
            ),
        ),
        VulkanDescriptorResourceAddressModel::StateBuffer {
            component_id,
            state_id,
            byte_capacity,
        } => Some(
            (
                VulkanPhysicalExecutionResidencyKind::OwnerState,
                "state:"@ + component_id + ":"@ + state_id,
                byte_capacity,
            ),
        ),
        VulkanDescriptorResourceAddressModel::StateView {
            component_id,
            state_id,
            byte_capacity,
        } => Some(
            (
                VulkanPhysicalExecutionResidencyKind::OwnerState,
                "state:"@ + component_id + ":"@ + state_id,
                byte_capacity,
            ),
        ),
        VulkanDescriptorResourceAddressModel::SelectionTelemetry {
            component_id,
            node_id,
            domain_id,
            byte_capacity,
        } => Some(
            (
                VulkanPhysicalExecutionResidencyKind::OwnerSelectionTelemetry,
                "selection:"@ + component_id + ":"@ + node_id + ":"@ + domain_id,
                byte_capacity,
            ),
        ),
        _ => None,
    }
}

/// Adds what one descriptor needs to the resources of the owner.
pub open spec fn owner_resource_step(dispatch: VulkanPreparedDispatchModel) -> spec_fn(
    Map<(VulkanPhysicalExecutionResidencyKind, Seq<char>), usize>,
    VulkanPreparedDescriptorModel,
) -> Result<Map<(VulkanPhysicalExecutionResidencyKind, Seq<char>), usize>, Seq<char>> {
    |found: Map<(VulkanPhysicalExecutionResidencyKind, Seq<char>), usize>,
        descriptor: VulkanPreparedDescriptorModel|
        match owner_resource(descriptor.resource) {
            None => Ok(found),
            Some((kind, resource_id, byte_capacity)) => if found.contains_key((kind, resource_id))
                && found[(kind, resource_id)] != byte_capacity {
                Err(
                    dispatch.message(
                        "resource "@ + debug_text(resource_id) + " has conflicting capacities "@
                            + decimal_text(found[(kind, resource_id)] as nat) + " and "@
                            + decimal_text(byte_capacity as nat),
                    ),
                )
            } else {
                Ok(found.insert((kind, resource_id), byte_capacity))
            },
        }
}

/// The requirement that an entry of the owner's resources stands for.
pub open spec fn owner_requirement(owner_device_id: Seq<char>) -> spec_fn(
    ((VulkanPhysicalExecutionResidencyKind, Seq<char>), usize),
) -> VulkanPhysicalExecutionResidencyRequirementModel {
    |entry: ((VulkanPhysicalExecutionResidencyKind, Seq<char>), usize)|
        VulkanPhysicalExecutionResidencyRequirementModel {
            device_id: owner_device_id,
            kind: entry.0.0,
            resource_id: entry.0.1,
            byte_capacity: entry.1,
        }
}

/// What the owner of a dispatch keeps resident, by kind and name, or the text of
/// the error.
pub open spec fn owner_requirements(
    owner_device_id: Seq<char>,
    dispatch: VulkanPreparedDispatchModel,
) -> Result<Seq<VulkanPhysicalExecutionResidencyRequirementModel>, Seq<char>> {
    match fold_from(dispatch.descriptors, 0, Map::empty(), owner_resource_step(dispatch)) {
        Err(message) => Err(message),
        Ok(found) => Ok(
            ordered_listing::<(VulkanPhysicalExecutionResidencyKind, String), usize>(
                found,
            ).map_values(owner_requirement(owner_device_id)),
        ),
    }
}

fn owner_resource_of(resource: &VulkanDescriptorResourceAddress) -> (found: Option<
    (VulkanPhysicalExecutionResidencyKind, String, usize),
>)
    ensures
        found.deep_view() == owner_resource(resource.deep_view()),
{
    match resource {
        VulkanDescriptorResourceAddress::RuntimeControl { runtime_source, byte_capacity } => Some(
            (
                VulkanPhysicalExecutionResidencyKind::OwnerControl,
                join2("runtime:", runtime_source.as_str()),
                *byte_capacity,
            ),
        ),
        VulkanDescriptorResourceAddress::StateBuffer { component_id, state_id, byte_capacity }
        | VulkanDescriptorResourceAddress::StateView { component_id, state_id, byte_capacity } =>
            Some(
            (
                VulkanPhysicalExecutionResidencyKind::OwnerState,
                join4("state:", component_id.as_str(), ":", state_id.as_str()),
                *byte_capacity,
            ),
        ),
        VulkanDescriptorResourceAddress::SelectionTelemetry {
            component_id,
            node_id,
            domain_id,
            byte_capacity,
        } => Some(
            (
                VulkanPhysicalExecutionResidencyKind::OwnerSelectionTelemetry,
                join6(
                    "selection:",
                    component_id.as_str(),
                    ":",
                    node_id.as_str(),
                    ":",
                    domain_id.as_str(),
                ),
                *byte_capacity,
            ),
        ),
        _ => None,
    }
}

/// What the owner of a dispatch keeps resident for it.
pub fn resolved_owner_residency_requirements(
    owner_device_id: &str,
    dispatch: &VulkanPreparedDispatch,
) -> (outcome: Result<
    Vec<VulkanPhysicalExecutionResidencyRequirement>,
    VulkanDistributedPlanError,
>)
    ensures
        plan_agrees(outcome, owner_requirements(owner_device_id@, dispatch.deep_view())),
{
    let ghost model = dispatch.deep_view();
    let ghost step = owner_resource_step(model);
    let mut requirements: OrderedMap<(VulkanPhysicalExecutionResidencyKind, String), usize> =
        OrderedMap::new();
    for index in 0..dispatch.descriptors.len()
        invariant
            model == dispatch.deep_view(),
            step == owner_resource_step(model),
            fold_from(model.descriptors, 0, Map::empty(), step) == fold_from(
                model.descriptors,
                index as nat,
                requirements.deep_view(),
                step,
            ),
    {
        let descriptor = &dispatch.descriptors[index];
        assert(model.descriptors[index as int] == descriptor.deep_view());
        match owner_resource_of(&descriptor.resource) {
            None => {},
            Some((kind, resource_id, byte_capacity)) => {
                let replaced = requirements.insert((kind, resource_id.clone()), byte_capacity);
                match replaced {
                    None => {},
                    Some(existing) => {
                        if existing != byte_capacity {
                            return Err(
                                dispatch_error(
                                    dispatch,
                                    join6(
                                        "resource ",
                                        quoted(resource_id.as_str()).as_str(),
                                        " has conflicting capacities ",
                                        decimal(existing).as_str(),
                                        " and ",
                                        decimal(byte_capacity).as_str(),
                                    ).as_str(),
                                ),
                            );
                        }
                    },
                }
            },
        }
    }
    let ghost listing = requirements.listing();
    let ghost to_requirement = owner_requirement(owner_device_id@);
    let ghost expected = listing.map_values(to_requirement);
    let count: usize = requirements.len();
    let mut resolved: Vec<VulkanPhysicalExecutionResidencyRequirement> = Vec::new();
    for index in 0..count
        invariant
            count == listing.len(),
            listing == requirements.listing(),
            to_requirement == owner_requirement(owner_device_id@),
            expected == listing.map_values(to_requirement),
            resolved.deep_view() == expected.take(index as int),
    {
        let key = requirements.key_at(index);
        let requirement = VulkanPhysicalExecutionResidencyRequirement {
            device_id: owner_device_id.to_owned(),
            kind: key.0,
            resource_id: key.1.clone(),
            byte_capacity: *requirements.value_at(index),
        };
        assert(requirement.deep_view() == expected[index as int]);
        append(&mut resolved, requirement);
        assert(expected.take(index as int + 1) =~= expected.take(index as int).push(
            expected[index as int],
        ));
    }
    assert(expected.take(expected.len() as int) =~= expected);
    Ok(resolved)
}

/// The contract distributes the dispatch in a phase and shape.
pub open spec fn contract_applies(
    dispatch: VulkanPreparedDispatchModel,
    contract: PhysicalExecutionContractModel,
    phase: ExecutionPhase,
    shape: ExecutionShape,
) -> bool {
    &&& contract.strategy.spreads()
    &&& contract.phases.contains(phase)
    &&& contract.execution_shapes.contains(shape)
    &&& contract.operation_family == dispatch.op
    &&& contract.member_node_ids.contains(dispatch.node_id)
}

/// The artifact is the primary one of its contract.
pub open spec fn is_primary() -> spec_fn(ContractArtifactModel) -> bool {
    |artifact: ContractArtifactModel| artifact.role is Primary
}

/// The artifact has the name.
pub open spec fn artifact_named(artifact_id: Seq<char>) -> spec_fn(
    VulkanPhysicalKernelArtifactModel,
) -> bool {
    |artifact: VulkanPhysicalKernelArtifactModel| artifact.artifact_id == artifact_id
}

/// The compiled kernel is the one that the contract describes.
pub open spec fn artifact_fulfils(
    artifact: VulkanPhysicalKernelArtifactModel,
    identity: ContractArtifactModel,
    contract: PhysicalExecutionContractModel,
) -> bool {
    &&& artifact.op == contract.operation_family
    &&& artifact.path == identity.path
    &&& artifact.entry_point == identity.entry_point
    &&& contract.dimensions.contains_key("local_size_x"@)
    &&& contract.dimensions["local_size_x"@] == artifact.local_size_x
    &&& contract.dimensions.contains_key("workgroup_count_x"@)
    &&& contract.dimensions["workgroup_count_x"@] == artifact.workgroup_count_x
}

/// The compiled kernel of a contract that applies, or the text of the error.
pub open spec fn contract_artifact(
    dispatch: VulkanPreparedDispatchModel,
    manifest: VulkanPhysicalKernelArtifactManifestModel,
    contract: PhysicalExecutionContractModel,
) -> Result<VulkanPhysicalKernelArtifactModel, Seq<char>> {
    let primary = kept(contract.artifacts, is_primary());
    if contract.validation_error is Some {
        Err(dispatch.message("has an invalid contract: "@ + contract.validation_error->0))
    } else if primary.len() != 1 {
        Err(
            dispatch.message(
                "physical contract "@ + debug_text(contract.contract_id)
                    + " requires exactly one primary artifact, found "@ + decimal_text(
                    primary.len(),
                ),
            ),
        )
    } else {
        match find_from(manifest.artifacts, 0, artifact_named(primary[0].artifact_id)) {
            None => Err(
                dispatch.message(
                    "physical contract "@ + debug_text(contract.contract_id)
                        + " has no loaded artifact "@ + debug_text(primary[0].artifact_id),
                ),
            ),
            Some(artifact) => if artifact_fulfils(artifact, primary[0], contract) {
                Ok(artifact)
            } else {
                Err(
                    dispatch.message(
                        "physical artifact "@ + debug_text(artifact.artifact_id)
                            + " disagrees with contract "@ + debug_text(contract.contract_id),
                    ),
                )
            },
        }
    }
}

/// Adds a contract that applies to the candidates.
pub open spec fn candidate_step(
    dispatch: VulkanPreparedDispatchModel,
    manifest: VulkanPhysicalKernelArtifactManifestModel,
    phase: ExecutionPhase,
    shape: ExecutionShape,
) -> spec_fn(
    Seq<(PhysicalExecutionContractModel, VulkanPhysicalKernelArtifactModel)>,
    PhysicalExecutionContractModel,
) -> Result<Seq<(PhysicalExecutionContractModel, VulkanPhysicalKernelArtifactModel)>, Seq<char>> {
    |candidates: Seq<(PhysicalExecutionContractModel, VulkanPhysicalKernelArtifactModel)>,
        contract: PhysicalExecutionContractModel|
        if !contract_applies(dispatch, contract, phase, shape) {
            Ok(candidates)
        } else {
            match contract_artifact(dispatch, manifest, contract) {
                Err(message) => Err(message),
                Ok(artifact) => Ok(candidates.push((contract, artifact))),
            }
        }
}

/// The name of a phase.
pub open spec fn phase_text(phase: ExecutionPhase) -> Seq<char> {
    match phase {
        ExecutionPhase::Decode => "Decode"@,
        ExecutionPhase::Prefill => "Prefill"@,
    }
}

pub fn phase_name(phase: ExecutionPhase) -> (text: &'static str)
    ensures
        text@ == phase_text(phase),
{
    match phase {
        ExecutionPhase::Decode => "Decode",
        ExecutionPhase::Prefill => "Prefill",
    }
}

/// The one contract that distributes a dispatch, with its compiled kernel; none
/// where no contract applies; the text of the error otherwise.
pub open spec fn selected_contract(
    dispatch: VulkanPreparedDispatchModel,
    manifest: VulkanPhysicalKernelArtifactManifestModel,
    phase: ExecutionPhase,
    shape: ExecutionShape,
) -> Result<
    Option<(PhysicalExecutionContractModel, VulkanPhysicalKernelArtifactModel)>,
    Seq<char>,
> {
    match fold_from(
        dispatch.physical_execution_contracts,
        0,
        Seq::empty(),
        candidate_step(dispatch, manifest, phase, shape),
    ) {
        Err(message) => Err(message),
        Ok(candidates) => if candidates.len() == 0 {
            Ok(None)
        } else if candidates.len() == 1 {
            Ok(Some(candidates[0]))
        } else {
            Err(
                dispatch.message(
                    "has "@ + decimal_text(candidates.len()) + " ambiguous "@ + phase_text(phase)
                        + " distribution contracts for reusable artifact family "@ + debug_text(
                        dispatch.reusable_family_id,
                    ),
                ),
            )
        },
    }
}

impl VulkanPhysicalKernelArtifactManifest {
    /// The first compiled kernel of a name.
    pub fn artifact(&self, artifact_id: &String) -> (found: Option<&VulkanPhysicalKernelArtifact>)
        ensures
            match found {
                Some(artifact) => find_from(
                    self.deep_view().artifacts,
                    0,
                    artifact_named(artifact_id@),
                ) == Some(artifact.deep_view()),
                None => find_from(self.deep_view().artifacts, 0, artifact_named(artifact_id@))
                    is None,
            },
    {
        let ghost all = self.deep_view().artifacts;
        let ghost condition = artifact_named(artifact_id@);
        for index in 0..self.artifacts.len()
            invariant
                all == self.deep_view().artifacts,
                condition == artifact_named(artifact_id@),
                find_from(all, 0, condition) == find_from(all, index as nat, condition),
        {
            assert(all[index as int] == self.artifacts@[index as int].deep_view());
            if self.artifacts[index].artifact_id == *artifact_id {
                return Some(&self.artifacts[index]);
            }
        }
        None
    }
}

fn applies(
    dispatch: &VulkanPreparedDispatch,
    contract: &PhysicalExecutionContract,
    phase: ExecutionPhase,
    execution_shape: ExecutionShape,
) -> (result: bool)
    ensures
        result == contract_applies(
            dispatch.deep_view(),
            contract.deep_view(),
            phase,
            execution_shape,
        ),
{
    contract.strategy.is_distributed() && holds(&contract.phases, &phase) && holds(
        &contract.execution_shapes,
        &execution_shape,
    ) && contract.operation_family == dispatch.op && holds(
        &contract.member_node_ids,
        &dispatch.node_id,
    )
}

fn dimension_is(contract: &PhysicalExecutionContract, name: &str, value: u32) -> (result: bool)
    ensures
        result == (contract.deep_view().dimensions.contains_key(name@)
            && contract.deep_view().dimensions[name@] == value),
{
    match contract.dimensions.get(&name.to_owned()) {
        Some(dimension) => *dimension == value as u64,
        None => false,
    }
}

fn find_contract_artifact<'a>(
    dispatch: &VulkanPreparedDispatch,
    artifact_manifest: &'a VulkanPhysicalKernelArtifactManifest,
    contract: &PhysicalExecutionContract,
) -> (outcome: Result<&'a VulkanPhysicalKernelArtifact, VulkanDistributedPlanError>)
    ensures
        plan_agrees(
            outcome,
            contract_artifact(
                dispatch.deep_view(),
                artifact_manifest.deep_view(),
                contract.deep_view(),
            ),
        ),
{
    match &contract.validation_error {
        Some(error) => {
            return Err(
                dispatch_error(
                    dispatch,
                    join2("has an invalid contract: ", error.as_str()).as_str(),
                ),
            );
        },
        None => {},
    }
    let ghost artifacts = contract.deep_view().artifacts;
    let ghost condition = is_primary();
    let mut count: usize = 0;
    let mut primary_index: usize = 0;
    for index in 0..contract.artifacts.len()
        invariant
            artifacts == contract.deep_view().artifacts,
            condition == is_primary(),
            count <= index,
            count == kept(artifacts.take(index as int), condition).len(),
            count > 0 ==> primary_index < index && kept(artifacts.take(index as int), condition)[0]
                == artifacts[primary_index as int],
    {
        proof {
            lemma_kept_step(artifacts, condition, index as int);
            assert(artifacts[index as int] == contract.artifacts@[index as int].deep_view());
        }
        if contract.artifacts[index].role == ArtifactRole::Primary {
            if count == 0 {
                primary_index = index;
            }
            count += 1;
        }
    }
    assert(artifacts.take(artifacts.len() as int) =~= artifacts);
    if count != 1 {
        return Err(
            dispatch_error(
                dispatch,
                join4(
                    "physical contract ",
                    quoted(contract.contract_id.as_str()).as_str(),
                    " requires exactly one primary artifact, found ",
                    decimal(count).as_str(),
                ).as_str(),
            ),
        );
    }
    let identity = &contract.artifacts[primary_index];
    assert(artifacts[primary_index as int] == identity.deep_view());
    match artifact_manifest.artifact(&identity.artifact_id) {
        None => Err(
            dispatch_error(
                dispatch,
                join4(
                    "physical contract ",
                    quoted(contract.contract_id.as_str()).as_str(),
                    " has no loaded artifact ",
                    quoted(identity.artifact_id.as_str()).as_str(),
                ).as_str(),
            ),
        ),
        Some(artifact) => {
            if artifact.op == contract.operation_family && artifact.path == identity.path
                && artifact.entry_point == identity.entry_point && dimension_is(
                contract,
                "local_size_x",
                artifact.local_size_x,
            ) && dimension_is(contract, "workgroup_count_x", artifact.workgroup_count_x) {
                Ok(artifact)
            } else {
                Err(
                    dispatch_error(
                        dispatch,
                        join4(
                            "physical artifact ",
                            quoted(artifact.artifact_id.as_str()).as_str(),
                            " disagrees with contract ",
                            quoted(contract.contract_id.as_str()).as_str(),
                        ).as_str(),
                    ),
                )
            }
        },
    }
}

/// Selects the one contract that distributes a dispatch.
pub fn select_distributed_contract<'a, 'b>(
    dispatch: &'a VulkanPreparedDispatch,
    artifact_manifest: &'b VulkanPhysicalKernelArtifactManifest,
    phase: ExecutionPhase,
    execution_shape: ExecutionShape,
) -> (outcome: Result<
    Option<(&'a PhysicalExecutionContract, &'b VulkanPhysicalKernelArtifact)>,
    VulkanDistributedPlanError,
>)
    ensures
        plan_agrees(
            outcome,
            selected_contract(
                dispatch.deep_view(),
                artifact_manifest.deep_view(),
                phase,
                execution_shape,
            ),
        ),
        outcome matches Ok(Some(candidate)) ==> candidate.0.validation_error is None
            && candidate.0.strategy.spreads() && dispatch.physical_execution_contracts@.contains(
            *candidate.0,
        ),
{
    let ghost model = dispatch.deep_view();
    let ghost manifest = artifact_manifest.deep_view();
    let ghost step = candidate_step(model, manifest, phase, execution_shape);
    let mut candidates: Vec<(&PhysicalExecutionContract, &VulkanPhysicalKernelArtifact)> =
        Vec::new();
    assert(candidates.deep_view() =~= Seq::empty());
    for index in 0..dispatch.physical_execution_contracts.len()
        invariant
            model == dispatch.deep_view(),
            manifest == artifact_manifest.deep_view(),
            step == candidate_step(model, manifest, phase, execution_shape),
            fold_from(model.physical_execution_contracts, 0, Seq::empty(), step) == fold_from(
                model.physical_execution_contracts,
                index as nat,
                candidates.deep_view(),
                step,
            ),
            forall|i: int|
                0 <= i < candidates.len() ==> (#[trigger] candidates@[i]).0.validation_error is None
                    && candidates@[i].0.strategy.spreads()
                    && dispatch.physical_execution_contracts@.contains(*candidates@[i].0),
    {
        let contract = &dispatch.physical_execution_contracts[index];
        assert(model.physical_execution_contracts[index as int] == contract.deep_view());
        if applies(dispatch, contract, phase, execution_shape) {
            match find_contract_artifact(dispatch, artifact_manifest, contract) {
                Err(error) => {
                    return Err(error);
                },
                Ok(artifact) => {
                    append(&mut candidates, (contract, artifact));
                    assert(dispatch.physical_execution_contracts@[index as int] == *contract);
                },
            }
        }
    }
    if candidates.len() == 0 {
        return Ok(None);
    }
    if candidates.len() > 1 {
        return Err(
            dispatch_error(
                dispatch,
                join6(
                    "has ",
                    decimal(candidates.len()).as_str(),
                    " ambiguous ",
                    phase_name(phase),
                    " distribution contracts for reusable artifact family ",
                    quoted(dispatch.reusable_family_id.as_str()).as_str(),
                ).as_str(),
            ),
        );
    }
    assert(candidates.deep_view()[0] == candidates@[0].deep_view());
    Ok(Some(candidates[0]))
}

/// The scalars that a launch hands to its kernel, or the text of the error.
pub open spec fn launch_scalars(launch: PartitionLaunchModel) -> Result<
    Seq<VulkanKernelScalarBindingModel>,
    Seq<char>,
> {
    if launch.origin_push_constant is None {
        Err("partition-origin push constant is unnamed"@)
    } else if launch.workgroup_x is Repeated && launch.count_push_constant is None {
        Err("repeated partition count push constant is unnamed"@)
    } else if launch.workgroup_x is Repeated {
        Ok(
            seq![
                push_constant_u32(launch.origin_push_constant->0),
                push_constant_u32(launch.count_push_constant->0),
            ],
        )
    } else {
        Ok(seq![push_constant_u32(launch.origin_push_constant->0)])
    }
}

/// A push constant of type `u32`.
pub open spec fn push_constant_u32(name: Seq<char>) -> VulkanKernelScalarBindingModel {
    VulkanKernelScalarBindingModel {
        name,
        scalar_type: "u32"@,
        source: VulkanKernelScalarSource::PushConstant,
    }
}

/// The text of a push constant of type `u32`.
pub open spec fn push_constant_text(scalar: VulkanKernelScalarBindingModel) -> Seq<char> {
    "VulkanKernelScalarBinding { name: "@ + debug_text(scalar.name) + ", scalar_type: "@
        + debug_text(scalar.scalar_type) + ", source: PushConstant }"@
}

/// What is wrong with the scalars of a kernel that a launch starts.
pub open spec fn origin_fault(
    dispatch: VulkanPreparedDispatchModel,
    artifact: VulkanPhysicalKernelArtifactModel,
    launch: PartitionLaunchModel,
) -> Option<Seq<char>> {
    if launch.origin is LocalZero {
        if artifact.push_constants.len() == 0 {
            None
        } else {
            Some(dispatch.message("local-zero partition contract forbids push constants"@))
        }
    } else {
        match launch_scalars(launch) {
            Err(message) => Some(dispatch.message(message)),
            Ok(expected) => if artifact.push_constants == expected {
                None
            } else {
                Some(
                    dispatch.message(
                        "partition contract requires exact push-constant ABI ["@ + listed_text(
                            expected.map_values(
                                |scalar: VulkanKernelScalarBindingModel|
                                    push_constant_text(scalar),
                            ),
                        ) + "]"@,
                    ),
                )
            },
        }
    }
}

fn push_constant(name: &String) -> (scalar: VulkanKernelScalarBinding)
    ensures
        scalar.deep_view() == push_constant_u32(name@),
{
    VulkanKernelScalarBinding {
        name: name.clone(),
        scalar_type: "u32".to_owned(),
        source: VulkanKernelScalarSource::PushConstant,
    }
}

/// Checks that a kernel takes the scalars that a launch hands to it.
pub fn validate_partition_origin(
    dispatch: &VulkanPreparedDispatch,
    artifact: &VulkanPhysicalKernelArtifact,
    launch: &PartitionLaunch,
) -> (outcome: Result<(), VulkanDistributedPlanError>)
    ensures
        match outcome {
            Ok(_) => origin_fault(
                dispatch.deep_view(),
                artifact.deep_view(),
                launch.deep_view(),
            ) is None,
            Err(error) => origin_fault(
                dispatch.deep_view(),
                artifact.deep_view(),
                launch.deep_view(),
            ) == Some(error.0@),
        },
{
    if launch.origin == PartitionOrigin::LocalZero {
        if artifact.push_constants.len() == 0 {
            return Ok(());
        }
        return Err(
            dispatch_error(dispatch, "local-zero partition contract forbids push constants"),
        );
    }
    let mut expected: Vec<VulkanKernelScalarBinding> = Vec::new();
    let mut texts: Vec<String> = Vec::new();
    match &launch.origin_push_constant {
        None => {
            return Err(dispatch_error(dispatch, "partition-origin push constant is unnamed"));
        },
        Some(name) => {
            append(&mut expected, push_constant(name));
        },
    }
    if launch.workgroup_x == WorkgroupXMapping::Repeated {
        match &launch.count_push_constant {
            None => {
                return Err(
                    dispatch_error(dispatch, "repeated partition count push constant is unnamed"),
                );
            },
            Some(name) => {
                append(&mut expected, push_constant(name));
            },
        }
    }
    let ghost scalars = expected.deep_view();
    assert(launch_scalars(launch.deep_view()) is Ok && scalars =~= launch_scalars(
        launch.deep_view(),
    )->Ok_0);
    if artifact.push_constants.same(&expected) {
        return Ok(());
    }
    let ghost wanted = scalars.map_values(
        |scalar: VulkanKernelScalarBindingModel| push_constant_text(scalar),
    );
    for index in 0..expected.len()
        invariant
            scalars == expected.deep_view(),
            forall|i: int|
                0 <= i < wanted.len() ==> #[trigger] wanted[i] == push_constant_text(scalars[i]),
            wanted.len() == scalars.len(),
            texts.deep_view() == wanted.take(index as int),
    {
        assert(scalars[index as int] == expected@[index as int].deep_view());
        append(
            &mut texts,
            join5(
                "VulkanKernelScalarBinding { name: ",
                quoted(expected[index].name.as_str()).as_str(),
                ", scalar_type: ",
                quoted(expected[index].scalar_type.as_str()).as_str(),
                ", source: PushConstant }",
            ),
        );
        assert(wanted.take(index as int + 1) =~= wanted.take(index as int).push(
            wanted[index as int],
        ));
    }
    assert(wanted.take(wanted.len() as int) =~= wanted);
    Err(
        dispatch_error(
            dispatch,
            join3(
                "partition contract requires exact push-constant ABI [",
                listed(&texts).as_str(),
                "]",
            ).as_str(),
        ),
    )
}

} // verus!
