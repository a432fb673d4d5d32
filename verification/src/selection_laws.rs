//! Laws of selecting contracts and the resources that they partition.
use vstd::prelude::*;

use crate::contract_selection::{
    artifact_named, candidate_step, contract_applies, contract_artifact, is_primary, origin_fault,
    owner_requirements, owner_resource, owner_resource_step, selected_contract,
};
use crate::contracts::{
    ExecutionPhase, ExecutionShape, PartitionLaunchModel, PhysicalExecutionContractModel,
    SelectedResourcePartitionModel,
};
use crate::creation_laws::lemma_kept_one;
use crate::dispatch_laws::lemma_kept_place;
use crate::execution_plans::{
    VulkanDistributedSelectedResourcePartitionPlanModel, VulkanPhysicalExecutionResidencyKind,
    VulkanPhysicalExecutionResidencyRequirementModel,
};
use crate::ordered::{
    lemma_listed_at, lemma_ordered_listing_exists, lists_key, ordered_listing,
};
use crate::prepared::{
    CompiledResourceResidencyContractModel, CompiledResourceSelectorModel,
    VulkanPhysicalKernelArtifactManifestModel, VulkanPhysicalKernelArtifactModel,
    VulkanPreparedDispatchModel,
};
use crate::selected_resources::{
    partition_step, resolved_partition, resolved_partitions, selector_serves,
};
use crate::sequences::{fold_from, kept};

verus! {

/// A contract distributes a dispatch in a phase and shape: it spreads the work over several
/// devices, is declared for the phase and the shape, and is for the operation and for the
/// node of the dispatch.
pub open spec fn distributes(
    contract: PhysicalExecutionContractModel,
    dispatch: VulkanPreparedDispatchModel,
    phase: ExecutionPhase,
    shape: ExecutionShape,
) -> bool {
    &&& !(contract.strategy is SingleDevice)
    &&& contract.phases.contains(phase)
    &&& contract.execution_shapes.contains(shape)
    &&& contract.operation_family == dispatch.op
    &&& contract.member_node_ids.contains(dispatch.node_id)
}

/// The compiled kernel is the one of a contract: the first that has the name of its only
/// primary artifact, with its path and entry point, for its operation, and as wide as the
/// contract says.
pub open spec fn is_kernel_of(
    contract: PhysicalExecutionContractModel,
    manifest: VulkanPhysicalKernelArtifactManifestModel,
    kernel: VulkanPhysicalKernelArtifactModel,
) -> bool {
    &&& contract.validation_error is None
    &&& kernel.op == contract.operation_family
    &&& contract.dimensions.contains_key("local_size_x"@)
    &&& contract.dimensions["local_size_x"@] == kernel.local_size_x
    &&& contract.dimensions.contains_key("workgroup_count_x"@)
    &&& contract.dimensions["workgroup_count_x"@] == kernel.workgroup_count_x
    &&& exists|a: int, k: int|
        #![trigger contract.artifacts[a], manifest.artifacts[k]]
        0 <= a < contract.artifacts.len() && 0 <= k < manifest.artifacts.len()
            && manifest.artifacts[k] == kernel && is_only_primary(contract, a)
            && contract.artifacts[a].artifact_id == kernel.artifact_id
            && contract.artifacts[a].path == kernel.path && contract.artifacts[a].entry_point
            == kernel.entry_point
}

/// The artifact at a place is the only primary one of a contract.
pub open spec fn is_only_primary(contract: PhysicalExecutionContractModel, place: int) -> bool {
    &&& 0 <= place < contract.artifacts.len()
    &&& contract.artifacts[place].role is Primary
    &&& forall|a: int|
        0 <= a < contract.artifacts.len() && a != place ==> !((
        #[trigger] contract.artifacts[a]).role is Primary)
}

proof fn lemma_kernel(
    dispatch: VulkanPreparedDispatchModel,
    manifest: VulkanPhysicalKernelArtifactManifestModel,
    contract: PhysicalExecutionContractModel,
)
    requires
        contract_artifact(dispatch, manifest, contract) is Ok,
    ensures
        is_kernel_of(
            contract,
            manifest,
            contract_artifact(dispatch, manifest, contract)->Ok_0,
        ),
{
    let condition = is_primary();
    let primary = kept(contract.artifacts, condition);
    lemma_kept_place(contract.artifacts, condition, 0);
    let a = choose|a: int|
        0 <= a < contract.artifacts.len() && contract.artifacts[a] == primary[0];
    lemma_kept_one(contract.artifacts, condition, a);
    assert forall|other: int|
        0 <= other < contract.artifacts.len() && other != a implies !((
    #[trigger] contract.artifacts[other]).role is Primary) by {
        assert(!condition(contract.artifacts[other]));
    }
    let named = artifact_named(primary[0].artifact_id);
    let k = crate::binding_laws::lemma_found_place(manifest.artifacts, 0, named);
    assert(is_only_primary(contract, a));
    assert(contract.artifacts[a].artifact_id == manifest.artifacts[k].artifact_id);
}

/// The contract with its kernel is one of the first contracts of a dispatch that distribute
/// it.
pub open spec fn is_candidate(
    dispatch: VulkanPreparedDispatchModel,
    manifest: VulkanPhysicalKernelArtifactManifestModel,
    phase: ExecutionPhase,
    shape: ExecutionShape,
    place: int,
    candidate: (PhysicalExecutionContractModel, VulkanPhysicalKernelArtifactModel),
) -> bool {
    &&& 0 <= place < dispatch.physical_execution_contracts.len()
    &&& dispatch.physical_execution_contracts[place] == candidate.0
    &&& distributes(candidate.0, dispatch, phase, shape)
    &&& is_kernel_of(candidate.0, manifest, candidate.1)
}

/// The number of the first contracts of a dispatch that distribute it.
pub open spec fn distributing_contracts(
    dispatch: VulkanPreparedDispatchModel,
    phase: ExecutionPhase,
    shape: ExecutionShape,
    count: int,
) -> nat
    decreases count,
{
    if count <= 0 {
        0
    } else {
        distributing_contracts(dispatch, phase, shape, count - 1) + if distributes(
            dispatch.physical_execution_contracts[count - 1],
            dispatch,
            phase,
            shape,
        ) {
            1nat
        } else {
            0
        }
    }
}

proof fn lemma_candidates(
    dispatch: VulkanPreparedDispatchModel,
    manifest: VulkanPhysicalKernelArtifactManifestModel,
    phase: ExecutionPhase,
    shape: ExecutionShape,
    index: nat,
    found: Seq<(PhysicalExecutionContractModel, VulkanPhysicalKernelArtifactModel)>,
)
    requires
        index <= dispatch.physical_execution_contracts.len(),
        found.len() == distributing_contracts(dispatch, phase, shape, index as int),
        forall|k: int|
            0 <= k < found.len() ==> is_some_candidate(
                dispatch,
                manifest,
                phase,
                shape,
                #[trigger] found[k],
            ),
        fold_from(
            dispatch.physical_execution_contracts,
            index,
            found,
            candidate_step(dispatch, manifest, phase, shape),
        ) is Ok,
    ensures
        ({
            let all = fold_from(
                dispatch.physical_execution_contracts,
                index,
                found,
                candidate_step(dispatch, manifest, phase, shape),
            )->Ok_0;
            &&& all.len() == distributing_contracts(
                dispatch,
                phase,
                shape,
                dispatch.physical_execution_contracts.len() as int,
            )
            &&& forall|k: int|
                0 <= k < all.len() ==> is_some_candidate(
                    dispatch,
                    manifest,
                    phase,
                    shape,
                    #[trigger] all[k],
                )
        }),
    decreases dispatch.physical_execution_contracts.len() - index,
{
    if index < dispatch.physical_execution_contracts.len() {
        let contract = dispatch.physical_execution_contracts[index as int];
        let next = candidate_step(dispatch, manifest, phase, shape)(found, contract)->Ok_0;
        assert(contract_applies(dispatch, contract, phase, shape) <==> distributes(
            contract,
            dispatch,
            phase,
            shape,
        ));
        if contract_applies(dispatch, contract, phase, shape) {
            lemma_kernel(dispatch, manifest, contract);
            assert(is_candidate(
                dispatch,
                manifest,
                phase,
                shape,
                index as int,
                next[next.len() - 1],
            ));
        }
        lemma_candidates(dispatch, manifest, phase, shape, index + 1, next);
    }
}

/// The contract with its kernel is some contract of a dispatch that distributes it.
pub open spec fn is_some_candidate(
    dispatch: VulkanPreparedDispatchModel,
    manifest: VulkanPhysicalKernelArtifactManifestModel,
    phase: ExecutionPhase,
    shape: ExecutionShape,
    candidate: (PhysicalExecutionContractModel, VulkanPhysicalKernelArtifactModel),
) -> bool {
    exists|place: int| #[trigger]
        is_candidate(dispatch, manifest, phase, shape, place, candidate)
}

/// A dispatch is distributed by a contract of its own that distributes it, with the kernel of
/// that contract, exactly where there is one such contract; where there is none it is not
/// distributed, and several are refused.
pub proof fn law_one_contract_distributes_a_dispatch(
    dispatch: VulkanPreparedDispatchModel,
    manifest: VulkanPhysicalKernelArtifactManifestModel,
    phase: ExecutionPhase,
    shape: ExecutionShape,
)
    requires
        selected_contract(dispatch, manifest, phase, shape) is Ok,
    ensures
        ({
            let selected = selected_contract(dispatch, manifest, phase, shape)->Ok_0;
            let count = distributing_contracts(
                dispatch,
                phase,
                shape,
                dispatch.physical_execution_contracts.len() as int,
            );
            &&& selected is Some <==> count == 1
            &&& selected is None <==> count == 0
            &&& selected is Some ==> is_some_candidate(
                dispatch,
                manifest,
                phase,
                shape,
                selected->0,
            )
        }),
{
    lemma_candidates(dispatch, manifest, phase, shape, 0, Seq::empty());
}

/// The kernel takes exactly the numbers that a launch gives it: none where rows are counted
/// from zero on each device; else the origin of the rows, and behind it their count where the
/// workgroups repeat.
pub proof fn law_kernels_take_what_launches_give(
    dispatch: VulkanPreparedDispatchModel,
    artifact: VulkanPhysicalKernelArtifactModel,
    launch: PartitionLaunchModel,
)
    requires
        origin_fault(dispatch, artifact, launch) is None,
    ensures
        launch.origin is LocalZero <==> artifact.push_constants.len() == 0,
        !(launch.origin is LocalZero) ==> {
            &&& launch.origin_push_constant == Some(artifact.push_constants[0].name)
            &&& artifact.push_constants[0].scalar_type == "u32"@
            &&& artifact.push_constants[0].source is PushConstant
            &&& artifact.push_constants.len() == if launch.workgroup_x is Repeated {
                2int
            } else {
                1
            }
            &&& launch.workgroup_x is Repeated ==> launch.count_push_constant == Some(
                artifact.push_constants[1].name,
            ) && artifact.push_constants[1].scalar_type == "u32"@
                && artifact.push_constants[1].source is PushConstant
        },
{
}

/// The requirement is in a list.
pub open spec fn requires_resident(
    requirements: Seq<VulkanPhysicalExecutionResidencyRequirementModel>,
    owner_device_id: Seq<char>,
    kind: VulkanPhysicalExecutionResidencyKind,
    bytes: usize,
) -> bool {
    exists|r: int|
        0 <= r < requirements.len() && (#[trigger] requirements[r]).device_id == owner_device_id
            && requirements[r].kind == kind && requirements[r].byte_capacity == bytes
}

proof fn lemma_owner_resources(
    dispatch: VulkanPreparedDispatchModel,
    index: nat,
    found: Map<(VulkanPhysicalExecutionResidencyKind, Seq<char>), usize>,
)
    requires
        index <= dispatch.descriptors.len(),
        found.dom().finite(),
        fold_from(dispatch.descriptors, index, found, owner_resource_step(dispatch)) is Ok,
    ensures
        ({
            let all = fold_from(
                dispatch.descriptors,
                index,
                found,
                owner_resource_step(dispatch),
            )->Ok_0;
            &&& all.dom().finite()
            &&& crate::island_laws::extends(found, all)
            &&& forall|d: int|
                index <= d < dispatch.descriptors.len() ==> has_owner_resource(
                    all,
                    (#[trigger] dispatch.descriptors[d]).resource,
                )
        }),
    decreases dispatch.descriptors.len() - index,
{
    if index < dispatch.descriptors.len() {
        let descriptor = dispatch.descriptors[index as int];
        let next = owner_resource_step(dispatch)(found, descriptor)->Ok_0;
        lemma_owner_resources(dispatch, index + 1, next);
        let all = fold_from(
            dispatch.descriptors,
            index + 1,
            next,
            owner_resource_step(dispatch),
        )->Ok_0;
        assert(crate::island_laws::extends(found, next));
        assert(has_owner_resource(next, descriptor.resource));
        assert(has_owner_resource(all, descriptor.resource));
    }
}

/// The map has what the owner keeps for a descriptor, if anything.
pub open spec fn has_owner_resource(
    found: Map<(VulkanPhysicalExecutionResidencyKind, Seq<char>), usize>,
    resource: crate::prepared::VulkanDescriptorResourceAddressModel,
) -> bool {
    match owner_resource(resource) {
        None => true,
        Some((kind, resource_id, bytes)) => found.contains_key((kind, resource_id))
            && found[(kind, resource_id)] == bytes,
    }
}

/// The owner of a dispatch keeps resident, on its own device and as large as it is, every
/// state that the dispatch addresses, every control of the runtime and every telemetry of a
/// selection.
pub proof fn law_owners_keep_what_descriptors_address(
    owner_device_id: Seq<char>,
    dispatch: VulkanPreparedDispatchModel,
    place: int,
)
    requires
        owner_requirements(owner_device_id, dispatch) is Ok,
        0 <= place < dispatch.descriptors.len(),
    ensures
        ({
            let requirements = owner_requirements(owner_device_id, dispatch)->Ok_0;
            let resource = dispatch.descriptors[place].resource;
            &&& resource is StateBuffer ==> requires_resident(
                requirements,
                owner_device_id,
                VulkanPhysicalExecutionResidencyKind::OwnerState,
                resource->StateBuffer_byte_capacity,
            )
            &&& resource is StateView ==> requires_resident(
                requirements,
                owner_device_id,
                VulkanPhysicalExecutionResidencyKind::OwnerState,
                resource->StateView_byte_capacity,
            )
            &&& resource is RuntimeControl ==> requires_resident(
                requirements,
                owner_device_id,
                VulkanPhysicalExecutionResidencyKind::OwnerControl,
                resource->RuntimeControl_byte_capacity,
            )
            &&& resource is SelectionTelemetry ==> requires_resident(
                requirements,
                owner_device_id,
                VulkanPhysicalExecutionResidencyKind::OwnerSelectionTelemetry,
                resource->SelectionTelemetry_byte_capacity,
            )
        }),
{
    let found = fold_from(
        dispatch.descriptors,
        0,
        Map::empty(),
        owner_resource_step(dispatch),
    )->Ok_0;
    let requirements = owner_requirements(owner_device_id, dispatch)->Ok_0;
    let listing = ordered_listing::<(VulkanPhysicalExecutionResidencyKind, String), usize>(found);
    lemma_owner_resources(dispatch, 0, Map::empty());
    lemma_ordered_listing_exists::<(VulkanPhysicalExecutionResidencyKind, String), usize>(found);
    let resource = dispatch.descriptors[place].resource;
    assert(has_owner_resource(found, resource));
    if owner_resource(resource) is Some {
        let (kind, resource_id, bytes) = owner_resource(resource)->0;
        let key = (kind, resource_id);
        assert(lists_key(listing, key));
        let k = choose|k: int| 0 <= k < listing.len() && #[trigger] listing[k].0 == key;
        lemma_listed_at::<(VulkanPhysicalExecutionResidencyKind, String), usize>(listing, k);
        assert(requirements[k].device_id == owner_device_id);
    }
}

/// The selector at a place is the only one for a signal of a component in a scope.
pub open spec fn is_only_selector(
    residency: CompiledResourceResidencyContractModel,
    execution_scope: Seq<char>,
    component_id: Seq<char>,
    signal: Seq<char>,
    place: int,
) -> bool {
    &&& 0 <= place < residency.selectors.len()
    &&& selects_for(residency.selectors[place], execution_scope, component_id, signal)
    &&& forall|s: int|
        0 <= s < residency.selectors.len() && s != place ==> !selects_for(
            #[trigger] residency.selectors[s],
            execution_scope,
            component_id,
            signal,
        )
}

/// The selector is for a signal of a component in a scope.
pub open spec fn selects_for(
    selector: CompiledResourceSelectorModel,
    execution_scope: Seq<char>,
    component_id: Seq<char>,
    signal: Seq<char>,
) -> bool {
    &&& selector.execution_scope == execution_scope
    &&& selector.component_id == component_id
    &&& selector.selection_signal == signal
}

/// The plan is that of a partition with the only selector for its signal: it has the groups
/// of the selector, as many as it declares resources, and the bindings of the partition.
pub open spec fn is_plan_of_partition(
    dispatch: VulkanPreparedDispatchModel,
    residency: CompiledResourceResidencyContractModel,
    execution_scope: Seq<char>,
    partition: SelectedResourcePartitionModel,
    plan: VulkanDistributedSelectedResourcePartitionPlanModel,
) -> bool {
    &&& plan.execution_scope == execution_scope
    &&& plan.selection_signal == partition.selection_signal
    &&& plan.address_table_binding == partition.address_table_binding
    &&& plan.parameter_slots_binding == partition.parameter_slots_binding
    &&& plan.parameters_per_resource == partition.parameters_per_resource
    &&& plan.resource_count == partition.resource_count || partition.resource_count > usize::MAX
    &&& plan.atomic_group_ids.len() == plan.resource_count
    &&& plan.atomic_group_byte_counts.len() == plan.resource_count
    &&& exists|s: int| #[trigger]
        is_only_selector(
            residency,
            execution_scope,
            dispatch.component_id,
            partition.selection_signal,
            s,
        ) && plan.selector_id == residency.selectors[s].id && plan.node_id
            == residency.selectors[s].node_id && plan.domain_id
            == residency.selectors[s].domain_id && plan.selection_count_per_activation
            == residency.selectors[s].selection_count_per_activation && plan.resource_count
            == residency.selectors[s].resource_count && residency.selectors[s].mapping
            is GroupTable && plan.atomic_group_ids
            == residency.selectors[s].mapping->atomic_group_ids
}

proof fn lemma_group_bytes_counted(
    dispatch: VulkanPreparedDispatchModel,
    residency: CompiledResourceResidencyContractModel,
    selector_id: Seq<char>,
    bindings: Map<(usize, usize), (Seq<char>, Seq<char>)>,
    parameters_per_resource: usize,
    group_ids: Seq<Seq<char>>,
    index: nat,
    found: Seq<usize>,
)
    requires
        found.len() == index,
        index <= group_ids.len(),
        crate::selected_resources::listed_groups_bytes_from(
            dispatch,
            residency,
            selector_id,
            bindings,
            parameters_per_resource,
            group_ids,
            index,
            found,
        ) is Ok,
    ensures
        crate::selected_resources::listed_groups_bytes_from(
            dispatch,
            residency,
            selector_id,
            bindings,
            parameters_per_resource,
            group_ids,
            index,
            found,
        )->Ok_0.len() == group_ids.len(),
    decreases group_ids.len() - index,
{
    if index < group_ids.len() {
        let bytes = crate::selected_resources::listed_group_bytes(
            dispatch,
            residency,
            selector_id,
            bindings,
            parameters_per_resource,
            index as usize,
            group_ids[index as int],
        )->Ok_0;
        lemma_group_bytes_counted(
            dispatch,
            residency,
            selector_id,
            bindings,
            parameters_per_resource,
            group_ids,
            index + 1,
            found.push(bytes),
        );
    }
}

proof fn lemma_partition(
    dispatch: VulkanPreparedDispatchModel,
    residency: CompiledResourceResidencyContractModel,
    execution_scope: Seq<char>,
    partition: SelectedResourcePartitionModel,
)
    requires
        resolved_partition(dispatch, residency, execution_scope, partition) is Ok,
    ensures
        is_plan_of_partition(
            dispatch,
            residency,
            execution_scope,
            partition,
            resolved_partition(dispatch, residency, execution_scope, partition)->Ok_0,
        ),
{
    let condition = selector_serves(
        execution_scope,
        dispatch.component_id,
        partition.selection_signal,
    );
    let matching = kept(residency.selectors, condition);
    lemma_kept_place(residency.selectors, condition, 0);
    let s = choose|s: int| 0 <= s < residency.selectors.len() && residency.selectors[s] == matching[0];
    lemma_kept_one(residency.selectors, condition, s);
    assert forall|other: int|
        0 <= other < residency.selectors.len() && other != s implies !selects_for(
        #[trigger] residency.selectors[other],
        execution_scope,
        dispatch.component_id,
        partition.selection_signal,
    ) by {
        assert(!condition(residency.selectors[other]));
    }
    assert(is_only_selector(
        residency,
        execution_scope,
        dispatch.component_id,
        partition.selection_signal,
        s,
    ));
    let selector = residency.selectors[s];
    let group_ids = selector.mapping->atomic_group_ids;
    let bindings = fold_from(
        residency.bindings,
        0,
        Map::empty(),
        crate::selected_resources::slot_step(
            dispatch,
            execution_scope,
            partition.selection_signal,
        ),
    )->Ok_0;
    lemma_group_bytes_counted(
        dispatch,
        residency,
        selector.id,
        bindings,
        partition.parameters_per_resource as usize,
        group_ids,
        0,
        Seq::empty(),
    );
}

proof fn lemma_partitions(
    dispatch: VulkanPreparedDispatchModel,
    partitions: Seq<SelectedResourcePartitionModel>,
    residency: CompiledResourceResidencyContractModel,
    execution_scope: Seq<char>,
    index: nat,
    found: Seq<VulkanDistributedSelectedResourcePartitionPlanModel>,
)
    requires
        found.len() == index,
        index <= partitions.len(),
        forall|p: int|
            0 <= p < index ==> is_plan_of_partition(
                dispatch,
                residency,
                execution_scope,
                partitions[p],
                #[trigger] found[p],
            ),
        fold_from(partitions, index, found, partition_step(dispatch, residency, execution_scope))
            is Ok,
    ensures
        ({
            let all = fold_from(
                partitions,
                index,
                found,
                partition_step(dispatch, residency, execution_scope),
            )->Ok_0;
            &&& all.len() == partitions.len()
            &&& forall|p: int|
                0 <= p < all.len() ==> is_plan_of_partition(
                    dispatch,
                    residency,
                    execution_scope,
                    partitions[p],
                    #[trigger] all[p],
                )
        }),
    decreases partitions.len() - index,
{
    if index < partitions.len() {
        let partition = partitions[index as int];
        lemma_partition(dispatch, residency, execution_scope, partition);
        let plan = resolved_partition(dispatch, residency, execution_scope, partition)->Ok_0;
        lemma_partitions(
            dispatch,
            partitions,
            residency,
            execution_scope,
            index + 1,
            found.push(plan),
        );
    }
}

/// Every partition of selected resources that a contract declares has its plan, in order,
/// with the only selector for its signal.
pub proof fn law_partitions_follow_their_selector(
    dispatch: VulkanPreparedDispatchModel,
    contract: PhysicalExecutionContractModel,
    execution_scope: Seq<char>,
    residency: CompiledResourceResidencyContractModel,
)
    requires
        resolved_partitions(dispatch, contract, Some((execution_scope, residency))) is Ok,
    ensures
        ({
            let plans = resolved_partitions(
                dispatch,
                contract,
                Some((execution_scope, residency)),
            )->Ok_0;
            &&& plans.len() == contract.selected_resource_partitions.len()
            &&& forall|p: int|
                0 <= p < plans.len() ==> is_plan_of_partition(
                    dispatch,
                    residency,
                    execution_scope,
                    contract.selected_resource_partitions[p],
                    #[trigger] plans[p],
                )
        }),
{
    if contract.selected_resource_partitions.len() > 0 {
        lemma_partitions(
            dispatch,
            contract.selected_resource_partitions,
            residency,
            execution_scope,
            0,
            Seq::empty(),
        );
    }
}

/// Without a residency contract nothing that selects resources is planned.
pub proof fn law_selected_resources_need_a_residency_contract(
    dispatch: VulkanPreparedDispatchModel,
    contract: PhysicalExecutionContractModel,
)
    ensures
        resolved_partitions(dispatch, contract, None) is Ok
            <==> contract.selected_resource_partitions.len() == 0,
{
}

} // verus!
