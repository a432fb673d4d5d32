use vulkan_distributed::contracts::{
    ExecutionPhase, ExecutionStrategy, InputDistribution, OutputCollection, ParameterPartitionKind,
    VulkanDistributedEquivalenceKind, VulkanDistributedEquivalencePlan,
};
use vulkan_distributed::dispatch_shards::{
    VulkanDistributedActivationRange, VulkanDistributedDispatchShard,
    VulkanDistributedSelectedResourceFragmentPlan,
    VulkanDistributedSelectedResourceParameterFragmentPlan,
};
use vulkan_distributed::errors::VulkanDistributedPlanError;
use vulkan_distributed::exact_application::replay_exact_distributed_component_case;
use vulkan_distributed::exact_coverage::{
    exact_runtime_selected_resource_fragments, validate_exact_selected_resource_coverage,
};
use vulkan_distributed::exact_rebinding::VulkanExecutableIdentity;
use vulkan_distributed::execution_plans::{
    VulkanDistributedActivationSlot, VulkanDistributedActivationStorage,
    VulkanDistributedDispatchDistribution, VulkanDistributedDispatchPlan,
    VulkanDistributedExecutionPlan, VulkanDistributedExecutionPlanSet,
    VulkanDistributedSelectedResourceParameterPartitionPlan,
    VulkanDistributedSelectedResourcePartitionPlan, VulkanPhysicalExecutionTransportKind,
    VulkanSharedResidentBufferRoute,
};
use vulkan_distributed::island_plans::resolved_physical_execution_islands_for_phase;
use vulkan_distributed::ordered::OrderedMap;
use vulkan_distributed::placement::{
    VulkanPlacementBehaviorIdentity, VulkanPlacementDeviceExecutionIdentity,
    VulkanPlacementDispatchGeometry, VulkanPlacementEquivalenceIdentity,
    VulkanPlacementEquivalenceKind, VulkanPlacementExecutionCaseIdentity,
    VulkanPlacementExecutionStrategy, VulkanPlacementOperationGeometry,
    VulkanPlacementScalarFormat, VulkanPlacementShapeClass, VulkanPlacementShardIdentity,
    VulkanPlacementTransportIdentity,
};

const RUNTIME_FINGERPRINT: &str = "runtime";

fn map_of<V: vulkan_distributed::values::PlainValue>(
    entries: Vec<(&str, V)>,
) -> OrderedMap<String, V> {
    let mut map = OrderedMap::new();
    for (key, value) in entries {
        map.insert(key.to_string(), value);
    }
    map
}

fn activation(binding: usize, signal_id: &str) -> VulkanDistributedActivationSlot {
    VulkanDistributedActivationSlot {
        binding,
        component_id: "moe".to_string(),
        signal_id: signal_id.to_string(),
        slot: binding,
        byte_capacity: 16,
        signal_byte_capacity: 16,
        storage: VulkanDistributedActivationStorage::ActivationSlot,
    }
}

fn loaded_words() -> Vec<u32> {
    vec![0x0723_0203, 1, 2, 3]
}

fn artifact_digest(words: &[u32], plan: &VulkanDistributedExecutionPlan, indices: &[usize]) -> String {
    let executables = indices
        .iter()
        .map(|index| plan.dispatches[*index].implementation_digest.clone())
        .collect::<Vec<_>>();
    format!("{words:?} {executables:?}")
}

fn operations(
    plan: &VulkanDistributedExecutionPlan,
    indices: &[usize],
) -> Vec<VulkanPlacementOperationGeometry> {
    indices
        .iter()
        .map(|index| {
            let dispatch = &plan.dispatches[*index];
            VulkanPlacementOperationGeometry::Dispatch {
                geometry: VulkanPlacementDispatchGeometry {
                    contract_id: dispatch.physical_execution_contract_id.clone(),
                    logical_extent: dispatch.output_rows,
                    sampled_extent: dispatch.output_rows,
                    input_width: dispatch.input_width,
                    workgroup_count_x: 1,
                    local_size_x: 64,
                },
            }
        })
        .collect()
}

fn graph_digest(
    signature: &str,
    plan: &VulkanDistributedExecutionPlan,
    indices: &[usize],
) -> String {
    let capacities = indices
        .iter()
        .map(|index| {
            let dispatch = &plan.dispatches[*index];
            (dispatch.input_byte_capacity, dispatch.output_byte_capacity)
        })
        .collect::<Vec<_>>();
    format!("{signature} {capacities:?}")
}

fn equivalence(
    plan: &VulkanDistributedExecutionPlan,
    indices: &[usize],
) -> Result<VulkanPlacementEquivalenceIdentity, String> {
    let exact = indices.iter().all(|index| {
        plan.dispatches[*index].equivalence.output == VulkanDistributedEquivalenceKind::BitExact
    });
    if exact {
        Ok(VulkanPlacementEquivalenceIdentity::bit_exact())
    } else {
        Err("no tolerance".to_string())
    }
}

fn strategy(
    plan: &VulkanDistributedExecutionPlan,
    indices: &[usize],
) -> VulkanPlacementExecutionStrategy {
    match plan.dispatches[indices[0]].execution_strategy {
        ExecutionStrategy::SingleDevice => VulkanPlacementExecutionStrategy::SingleDevice,
        ExecutionStrategy::TensorParallel => VulkanPlacementExecutionStrategy::TensorParallel,
        ExecutionStrategy::ExpertParallel => VulkanPlacementExecutionStrategy::WholeExpertParallel,
        ExecutionStrategy::TensorParallelExpert => {
            VulkanPlacementExecutionStrategy::IntraExpertTensorParallel
        }
    }
}

fn identity_of(
    words: Vec<u32>,
) -> impl Fn(
    &VulkanDistributedExecutionPlan,
    &Vec<usize>,
    &String,
    usize,
) -> VulkanExecutableIdentity {
    move |plan: &VulkanDistributedExecutionPlan,
          indices: &Vec<usize>,
          signature: &String,
          _device_count: usize| VulkanExecutableIdentity {
        artifact_digest: Ok(artifact_digest(&words, plan, indices)),
        operations: Ok(operations(plan, indices)),
        execution_graph_digest: Ok(graph_digest(signature, plan, indices)),
        equivalence: equivalence(plan, indices),
        strategy: Ok(strategy(plan, indices)),
    }
}

fn stores_are_planned(_plans: &VulkanDistributedExecutionPlanSet) -> Result<(), String> {
    Ok(())
}

fn empty_plan() -> VulkanDistributedExecutionPlan {
    VulkanDistributedExecutionPlan {
        device_ids: vec!["helper".to_string(), "owner".to_string()],
        storage_buffer_offset_alignment: 4,
        dispatches: Vec::new(),
        execution_islands: Vec::new(),
        shared_activation_route: VulkanSharedResidentBufferRoute::SharedHost,
        shared_input_byte_capacity: 16,
        shared_output_byte_capacity: 16,
        distributed_parameter_byte_count: 0,
    }
}

fn plan_of(dispatches: Vec<VulkanDistributedDispatchPlan>) -> VulkanDistributedExecutionPlan {
    VulkanDistributedExecutionPlan {
        dispatches,
        ..empty_plan()
    }
}

fn plan_with_dispatch(dispatch: VulkanDistributedDispatchPlan) -> VulkanDistributedExecutionPlan {
    let mut plan = plan_of(vec![dispatch]);
    plan.execution_islands = resolved_physical_execution_islands_for_phase(
        &plan.dispatches,
        plan.shared_activation_route,
        ExecutionPhase::Decode,
    )
    .unwrap();
    plan
}

fn synchronize_executable_identity(
    mut execution_case: VulkanPlacementExecutionCaseIdentity,
    plan: &VulkanDistributedExecutionPlan,
) -> VulkanPlacementExecutionCaseIdentity {
    let dispatch_indices = [0usize];
    execution_case.artifact_digest = artifact_digest(&loaded_words(), plan, &dispatch_indices);
    execution_case.operations = operations(plan, &dispatch_indices);
    execution_case.execution_graph_digest = graph_digest(
        &execution_case.behavior.compiled_execution_signature,
        plan,
        &dispatch_indices,
    );
    execution_case.equivalence = equivalence(plan, &dispatch_indices).unwrap();
    let physical_id = |logical_id: &str| match logical_id {
        "owner" => "physical-owner",
        "helper" => "physical-helper",
        other => panic!("unexpected test logical device {other:?}"),
    };
    execution_case.transports = Vec::new();
    for island in &plan.execution_islands {
        for route in &island.transport_routes {
            let transport = VulkanPlacementTransportIdentity {
                source_physical_device_id: physical_id(&route.source_device_id).to_string(),
                destination_physical_device_id: physical_id(&route.destination_device_id)
                    .to_string(),
                byte_capacity: route.byte_capacity,
                route: match route.kind {
                    VulkanPhysicalExecutionTransportKind::ExternalDeviceLocal => {
                        "external_device_local"
                    }
                    VulkanPhysicalExecutionTransportKind::SharedHost => "shared_host",
                }
                .to_string(),
            };
            if !execution_case.transports.contains(&transport) {
                execution_case.transports.push(transport);
            }
        }
    }
    execution_case
}

fn shard(device_id: &str, row_start: usize, resources: &[usize]) -> VulkanDistributedDispatchShard {
    VulkanDistributedDispatchShard {
        device_id: device_id.to_string(),
        selected_resource_indices: map_of(vec![("selector", resources.to_vec())]),
        selected_resource_fragments: OrderedMap::new(),
        row_start,
        row_count: 2,
        workgroup_count_x: 1,
        base_workgroup_z: u32::try_from(row_start).unwrap(),
        input_range: VulkanDistributedActivationRange {
            byte_offset: 0,
            byte_count: 16,
        },
        auxiliary_input_ranges: Vec::new(),
        output_byte_offset: 0,
        output_byte_count: 16,
        parameters: Vec::new(),
    }
}

fn dispatch() -> VulkanDistributedDispatchPlan {
    VulkanDistributedDispatchPlan {
        owner_device_id: "owner".to_string(),
        dispatch_index: 7,
        component_id: "moe".to_string(),
        node_id: "down".to_string(),
        physical_artifact_id: "artifact".to_string(),
        physical_execution_contract_id: "contract".to_string(),
        implementation_digest: "implementation".to_string(),
        execution_strategy: ExecutionStrategy::ExpertParallel,
        equivalence: VulkanDistributedEquivalencePlan {
            output: VulkanDistributedEquivalenceKind::BitExact,
            state: VulkanDistributedEquivalenceKind::BitExact,
            absolute_tolerance_bits: None,
            relative_tolerance_bits: None,
        },
        contract_member_node_ids: vec!["down".to_string()],
        local_intermediates: Vec::new(),
        has_lazy_resource_requirements: true,
        selected_resource_partitions: vec![VulkanDistributedSelectedResourcePartitionPlan {
            execution_scope: "target".to_string(),
            selector_id: "selector".to_string(),
            node_id: "router".to_string(),
            domain_id: "experts".to_string(),
            selection_signal: "routes".to_string(),
            address_table_binding: 3,
            parameter_slots_binding: 4,
            resource_count: 4,
            parameters_per_resource: 2,
            parameter_partitions: Vec::new(),
            selection_count_per_activation: 2,
            atomic_group_ids: (0..4).map(|index| format!("expert-{index}")).collect(),
            atomic_group_byte_counts: vec![8; 4],
        }],
        selected_resource_activations: vec![activation(2, "routes")],
        owner_residency_requirements: Vec::new(),
        input_byte_capacity: 16,
        output_byte_capacity: 16,
        output_rows: 4,
        input_width: 4,
        row_alignment: 1,
        input_activation: activation(0, "input"),
        input_distribution: InputDistribution::Routed,
        auxiliary_input_activations: Vec::new(),
        auxiliary_input_distributions: Vec::new(),
        output_activation: activation(1, "output"),
        output_collection: OutputCollection::Routed,
        reduction: None,
        distribution: VulkanDistributedDispatchDistribution::ExpertRange,
        distributed_parameter_byte_count: 0,
        shards: vec![shard("owner", 0, &[0, 1]), shard("helper", 2, &[2, 3])],
    }
}

fn device(physical_device_id: &str, driver_version: u32) -> VulkanPlacementDeviceExecutionIdentity {
    VulkanPlacementDeviceExecutionIdentity {
        physical_device_id: physical_device_id.to_string(),
        api_version: 1,
        driver_version,
    }
}

fn indices_by_partition(resources: &[usize]) -> OrderedMap<usize, Vec<usize>> {
    let mut indices = OrderedMap::new();
    indices.insert(0, resources.to_vec());
    indices
}

fn exact_case(
    owner_resources: &[usize],
    helper_resources: &[usize],
) -> VulkanPlacementExecutionCaseIdentity {
    let exact_shard = |participant_ordinal: usize,
                       physical_device_id: &str,
                       row_start: usize,
                       resources: &[usize]| VulkanPlacementShardIdentity {
        dispatch_ordinal: 0,
        participant_ordinal,
        physical_device_id: physical_device_id.to_string(),
        distribution: "expert_range".to_string(),
        logical_start: row_start,
        logical_count: 2,
        selected_resource_indices_by_partition: indices_by_partition(resources),
        selected_resource_fragments_by_partition: OrderedMap::new(),
        parameter_bytes: 0,
    };
    let execution_case = VulkanPlacementExecutionCaseIdentity {
        behavior: VulkanPlacementBehaviorIdentity {
            compiled_execution_signature: "signature".to_string(),
            runtime_implementation_fingerprint: RUNTIME_FINGERPRINT.to_string(),
            phase: ExecutionPhase::Decode,
            shape: VulkanPlacementShapeClass {
                activation_batch_width: 1,
                input_byte_capacity: 16,
                output_byte_capacity: 16,
            },
            input_fixture_digest: "fixture".to_string(),
        },
        contract_ids: vec!["contract".to_string()],
        implementation_digests: vec!["implementation".to_string()],
        artifact_digest: "artifact".to_string(),
        execution_graph_digest: "graph".to_string(),
        operations: vec![VulkanPlacementOperationGeometry::Dispatch {
            geometry: VulkanPlacementDispatchGeometry {
                contract_id: "contract".to_string(),
                logical_extent: 4,
                sampled_extent: 4,
                input_width: 4,
                workgroup_count_x: 1,
                local_size_x: 64,
            },
        }],
        equivalence: VulkanPlacementEquivalenceIdentity::bit_exact(),
        strategy: VulkanPlacementExecutionStrategy::WholeExpertParallel,
        devices: vec![device("physical-owner", 2), device("physical-helper", 2)],
        shards: vec![
            exact_shard(0, "physical-owner", 0, owner_resources),
            exact_shard(1, "physical-helper", 2, helper_resources),
        ],
        input_physical_device_id: "physical-owner".to_string(),
        output_physical_device_id: "physical-owner".to_string(),
        owner_physical_device_id: "physical-owner".to_string(),
        transports: Vec::new(),
    };
    synchronize_executable_identity(execution_case, &plan_with_dispatch(dispatch()))
}

fn tensor_parallel_dispatch() -> VulkanDistributedDispatchPlan {
    let mut dispatch = dispatch();
    dispatch.execution_strategy = ExecutionStrategy::TensorParallel;
    dispatch.has_lazy_resource_requirements = false;
    dispatch.selected_resource_partitions.clear();
    dispatch.selected_resource_activations.clear();
    dispatch.input_distribution = InputDistribution::Replicated;
    dispatch.output_collection = OutputCollection::Concatenated;
    dispatch.distribution = VulkanDistributedDispatchDistribution::OutputRows;
    for shard in &mut dispatch.shards {
        shard.selected_resource_indices = OrderedMap::new();
    }
    dispatch
}

fn tensor_parallel_exact_case() -> VulkanPlacementExecutionCaseIdentity {
    let mut execution_case = exact_case(&[], &[]);
    execution_case.strategy = VulkanPlacementExecutionStrategy::TensorParallel;
    for shard in &mut execution_case.shards {
        shard.distribution = "output_rows".to_string();
        shard.selected_resource_indices_by_partition = OrderedMap::new();
    }
    synchronize_executable_identity(
        execution_case,
        &plan_with_dispatch(tensor_parallel_dispatch()),
    )
}

fn fragments_of(
    instance: &str,
    shard: &VulkanDistributedDispatchShard,
) -> Vec<VulkanDistributedSelectedResourceFragmentPlan> {
    let prefix = if instance.is_empty() {
        String::new()
    } else {
        format!("{instance}:")
    };
    (0..4)
        .map(|resource_index| VulkanDistributedSelectedResourceFragmentPlan {
            resource_index,
            atomic_group_id: format!("{prefix}expert-{resource_index}"),
            logical_start: shard.row_start,
            logical_count: shard.row_count,
            parameters: vec![VulkanDistributedSelectedResourceParameterFragmentPlan {
                parameter_slot: 0,
                resource_id: format!("{prefix}resource-{resource_index}-0"),
                resource_byte_count: 4,
                byte_offset: shard.row_start,
                byte_count: shard.row_count,
            }],
        })
        .collect()
}

fn contiguous_parameter() -> VulkanDistributedSelectedResourceParameterPartitionPlan {
    VulkanDistributedSelectedResourceParameterPartitionPlan {
        parameter_slot: 0,
        dimension: 0,
        kind: ParameterPartitionKind::Contiguous,
        alignment_elements: 1,
        logical_elements_per_index: 1,
    }
}

fn fragmented_tensor_parallel_dispatch(instance: &str) -> VulkanDistributedDispatchPlan {
    let mut dispatch = dispatch();
    dispatch.component_id = instance.to_string();
    dispatch.node_id = format!("{instance}:down");
    dispatch.physical_execution_contract_id = format!("{instance}:contract");
    dispatch.execution_strategy = ExecutionStrategy::TensorParallelExpert;
    let partition = &mut dispatch.selected_resource_partitions[0];
    partition.parameter_partitions = vec![contiguous_parameter()];
    partition.parameters_per_resource = 1;
    partition.atomic_group_ids = (0..4)
        .map(|index| format!("{instance}:expert-{index}"))
        .collect();
    partition.atomic_group_byte_counts = vec![4; 4];
    for shard in &mut dispatch.shards {
        shard.selected_resource_indices = OrderedMap::new();
        shard.selected_resource_fragments =
            map_of(vec![("selector", fragments_of(instance, shard))]);
    }
    dispatch
}

fn fragmented_tensor_parallel_exact_case(instance: &str) -> VulkanPlacementExecutionCaseIdentity {
    let dispatch = fragmented_tensor_parallel_dispatch(instance);
    let plan = plan_with_dispatch(dispatch.clone());
    let mut execution_case = exact_case(&[], &[]);
    execution_case.contract_ids = vec![dispatch.physical_execution_contract_id.clone()];
    execution_case.strategy = VulkanPlacementExecutionStrategy::IntraExpertTensorParallel;
    for (participant_ordinal, exact_shard) in execution_case.shards.iter_mut().enumerate() {
        exact_shard.selected_resource_indices_by_partition = OrderedMap::new();
        exact_shard.selected_resource_fragments_by_partition =
            exact_runtime_selected_resource_fragments(
                &dispatch.selected_resource_partitions,
                &dispatch.shards[participant_ordinal],
            )
            .unwrap();
    }
    synchronize_executable_identity(execution_case, &plan)
}

fn device_execution_identities() -> OrderedMap<String, VulkanPlacementDeviceExecutionIdentity> {
    map_of(vec![
        ("owner", device("physical-owner", 2)),
        ("helper", device("physical-helper", 2)),
    ])
}

fn replay(
    component_id: &str,
    dispatches: Vec<VulkanDistributedDispatchPlan>,
    execution_case: VulkanPlacementExecutionCaseIdentity,
    words: Vec<u32>,
) -> Result<VulkanDistributedExecutionPlanSet, VulkanDistributedPlanError> {
    let mut plans = VulkanDistributedExecutionPlanSet {
        decode: plan_of(dispatches),
        decode_batch: empty_plan(),
        prefill: empty_plan(),
    };
    plans.apply_exact_execution_cases(
        &map_of(vec![(component_id, execution_case)]),
        &OrderedMap::new(),
        &OrderedMap::new(),
        &device_execution_identities(),
        RUNTIME_FINGERPRINT,
        &identity_of(words),
        &stores_are_planned,
    )?;
    Ok(plans)
}

fn replay_tensor_parallel_case(
    execution_case: VulkanPlacementExecutionCaseIdentity,
    words: Vec<u32>,
) -> Result<VulkanDistributedExecutionPlanSet, VulkanDistributedPlanError> {
    replay("moe", vec![tensor_parallel_dispatch()], execution_case, words)
}

#[test]
fn exact_plan_set_replay_rebinds_equivalent_component_contract_labels() {
    let mut relabelled_dispatch = tensor_parallel_dispatch();
    relabelled_dispatch.component_id = "another-layer".to_string();
    relabelled_dispatch.node_id = "another-down".to_string();
    relabelled_dispatch.physical_execution_contract_id =
        "another-component-contract-label".to_string();

    let plans = replay(
        "another-layer",
        vec![relabelled_dispatch],
        tensor_parallel_exact_case(),
        loaded_words(),
    )
    .unwrap();

    assert_eq!(
        plans.decode.dispatches[0].physical_execution_contract_id,
        "another-component-contract-label",
    );
}

#[test]
fn exact_plan_set_replay_rebinds_equivalent_expert_fragment_labels() {
    let plans = replay(
        "runtime-layer",
        vec![fragmented_tensor_parallel_dispatch("runtime-layer")],
        fragmented_tensor_parallel_exact_case("measured-layer"),
        loaded_words(),
    )
    .unwrap();

    let runtime_fragment = &plans.decode.dispatches[0].shards[0]
        .selected_resource_fragments
        .get(&"selector".to_string())
        .unwrap()[0];
    assert_eq!(runtime_fragment.atomic_group_id, "runtime-layer:expert-0");
    assert_eq!(
        runtime_fragment.parameters[0].resource_id,
        "runtime-layer:resource-0-0",
    );
}

#[test]
fn exact_plan_set_replay_rejects_changed_expert_fragment_geometry() {
    let mut runtime_dispatch = fragmented_tensor_parallel_dispatch("runtime-layer");
    let mut fragments = fragments_of("runtime-layer", &runtime_dispatch.shards[0]);
    fragments[0].parameters[0].byte_count += 1;
    runtime_dispatch.shards[0].selected_resource_fragments =
        map_of(vec![("selector", fragments)]);

    let error = replay(
        "runtime-layer",
        vec![runtime_dispatch],
        fragmented_tensor_parallel_exact_case("measured-layer"),
        loaded_words(),
    )
    .unwrap_err();

    assert!(error.0.contains("selected-resource fragment geometry"));
}

#[test]
fn exact_plan_set_replay_applies_measured_tp_to_mount_input() {
    let plans = replay_tensor_parallel_case(tensor_parallel_exact_case(), loaded_words()).unwrap();

    assert_eq!(plans.decode.execution_islands.len(), 1);
    assert_eq!(
        plans.decode.execution_islands[0].dispatch_indices(),
        vec![7]
    );
    assert_eq!(
        plans.decode.dispatches[0]
            .shards
            .iter()
            .map(|shard| (shard.device_id.as_str(), shard.row_start, shard.row_count))
            .collect::<Vec<_>>(),
        [("owner", 0, 2), ("helper", 2, 2)],
    );
}

#[test]
fn exact_plan_set_replay_selects_the_measured_subset_from_available_contracts() {
    let selected = tensor_parallel_dispatch();
    let mut unselected = tensor_parallel_dispatch();
    unselected.dispatch_index = 8;
    unselected.node_id = "other-down".to_string();
    unselected.physical_execution_contract_id = "other-contract".to_string();
    unselected.implementation_digest = "other-implementation".to_string();
    unselected.input_width += 1;

    let plans = replay(
        "moe",
        vec![selected, unselected],
        tensor_parallel_exact_case(),
        loaded_words(),
    )
    .unwrap();

    assert_eq!(plans.decode.dispatches.len(), 1);
    assert_eq!(
        plans.decode.dispatches[0].physical_execution_contract_id,
        "contract",
    );
}

#[test]
fn exact_plan_set_replay_rejects_stale_runtime_calibration() {
    let mut stale = tensor_parallel_exact_case();
    stale.behavior.runtime_implementation_fingerprint = "stale-runtime".to_string();

    let error = replay_tensor_parallel_case(stale, loaded_words()).unwrap_err();

    assert!(error.0.contains("different runtime implementation"));
}

#[test]
fn exact_plan_set_replay_rejects_stale_executable_binary() {
    let mut stale_words = loaded_words();
    stale_words[3] ^= 1;

    let error =
        replay_tensor_parallel_case(tensor_parallel_exact_case(), stale_words).unwrap_err();

    assert!(error.0.contains("different executable artifacts"));
}

#[test]
fn exact_plan_set_replay_rejects_stale_operation_geometry() {
    let mut stale = tensor_parallel_exact_case();
    let VulkanPlacementOperationGeometry::Dispatch { geometry } = &mut stale.operations[0] else {
        panic!("test fixture must begin with a distributed dispatch");
    };
    geometry.input_width += 1;

    let error = replay_tensor_parallel_case(stale, loaded_words()).unwrap_err();

    assert!(error.0.contains("different operation geometry"));
}

#[test]
fn exact_plan_set_replay_rejects_stale_execution_graph() {
    let mut stale = tensor_parallel_exact_case();
    stale.execution_graph_digest = format!("sha256:{}", "f".repeat(64));

    let error = replay_tensor_parallel_case(stale, loaded_words()).unwrap_err();

    assert!(error.0.contains("different distributed execution graph"));
}

#[test]
fn exact_plan_set_replay_rejects_stale_activation_shape() {
    let mut stale = tensor_parallel_exact_case();
    stale.behavior.shape.output_byte_capacity += 2;

    let error = replay_tensor_parallel_case(stale, loaded_words()).unwrap_err();

    assert!(
        error
            .0
            .contains("different physical endpoints or activation shape")
    );
}

#[test]
fn exact_plan_set_replay_rejects_stale_owner_and_endpoint() {
    let mut stale_owner = tensor_parallel_exact_case();
    stale_owner.owner_physical_device_id = "physical-helper".to_string();
    let owner_error = replay_tensor_parallel_case(stale_owner, loaded_words()).unwrap_err();
    assert!(owner_error.0.contains("different physical owner"));

    let mut stale_endpoint = tensor_parallel_exact_case();
    stale_endpoint.output_physical_device_id = "physical-helper".to_string();
    let endpoint_error = replay_tensor_parallel_case(stale_endpoint, loaded_words()).unwrap_err();
    assert!(
        endpoint_error
            .0
            .contains("different physical endpoints or activation shape")
    );
}

#[test]
fn exact_plan_set_replay_rejects_stale_transport_route() {
    let mut stale = tensor_parallel_exact_case();
    assert!(!stale.transports.is_empty());
    stale.transports[0].route = "external_device_local".to_string();

    let error = replay_tensor_parallel_case(stale, loaded_words()).unwrap_err();

    assert!(error.0.contains("different physical transport routes"));
}

#[test]
fn exact_plan_set_replay_rejects_stale_equivalence_contract() {
    let mut stale = tensor_parallel_exact_case();
    stale.equivalence.output = VulkanPlacementEquivalenceKind::AbsoluteRelativeTolerance;
    stale.equivalence.absolute_tolerance_bits = Some(0.01f64.to_bits());
    stale.equivalence.relative_tolerance_bits = Some(0.01f64.to_bits());
    stale.equivalence.output_scalar_format = Some(VulkanPlacementScalarFormat::Bf16);

    let error = replay_tensor_parallel_case(stale, loaded_words()).unwrap_err();

    assert!(error.0.contains("different output or state equivalence"));
}

#[test]
fn exact_replay_applies_partition_ordinal_expert_ownership() {
    let mut plan = plan_of(vec![dispatch()]);

    replay_exact_distributed_component_case(
        &mut plan,
        "moe",
        &vec![0],
        &exact_case(&[0, 2], &[1, 3]),
        &device_execution_identities(),
        &identity_of(loaded_words()),
    )
    .unwrap();

    let selector = "selector".to_string();
    assert_eq!(
        plan.dispatches[0].shards[0]
            .selected_resource_indices
            .get(&selector)
            .unwrap(),
        &vec![0, 2]
    );
    assert_eq!(
        plan.dispatches[0].shards[1]
            .selected_resource_indices
            .get(&selector)
            .unwrap(),
        &vec![1, 3]
    );
}

#[test]
fn exact_replay_rejects_duplicate_or_missing_expert_ownership() {
    let mut plan = plan_of(vec![dispatch()]);

    assert!(
        replay_exact_distributed_component_case(
            &mut plan,
            "moe",
            &vec![0],
            &exact_case(&[0, 1], &[1, 2]),
            &device_execution_identities(),
            &identity_of(loaded_words()),
        )
        .unwrap_err()
        .message()
        .contains("exactly once")
    );
}

#[test]
fn exact_replay_rejects_stale_physical_driver_identity() {
    let mut plan = plan_of(vec![dispatch()]);

    let error = replay_exact_distributed_component_case(
        &mut plan,
        "moe",
        &vec![0],
        &exact_case(&[0, 1], &[2, 3]),
        &map_of(vec![
            ("owner", device("physical-owner", 999)),
            ("helper", device("physical-helper", 2)),
        ]),
        &identity_of(loaded_words()),
    )
    .unwrap_err();

    assert!(
        error
            .message()
            .contains("different physical devices or drivers")
    );
}

#[test]
fn exact_replay_rejects_stale_physical_execution_contracts() {
    let mut plan = plan_of(vec![dispatch()]);
    let mut stale = exact_case(&[0, 1], &[2, 3]);
    stale.implementation_digests = vec!["stale".to_string()];

    let error = replay_exact_distributed_component_case(
        &mut plan,
        "moe",
        &vec![0],
        &stale,
        &device_execution_identities(),
        &identity_of(loaded_words()),
    )
    .unwrap_err();

    assert!(
        error
            .message()
            .contains("different physical execution contracts")
    );
}

#[test]
fn exact_replay_rejects_relabelled_physical_execution_strategy() {
    let mut plan = plan_of(vec![dispatch()]);
    let mut relabelled = exact_case(&[0, 1], &[2, 3]);
    relabelled.strategy = VulkanPlacementExecutionStrategy::IntraExpertTensorParallel;

    let error = replay_exact_distributed_component_case(
        &mut plan,
        "moe",
        &vec![0],
        &relabelled,
        &device_execution_identities(),
        &identity_of(loaded_words()),
    )
    .unwrap_err();

    assert!(
        error
            .message()
            .contains("different physical execution strategy")
    );
}

#[test]
fn exact_fragment_coverage_requires_every_resource_and_no_gaps() {
    let mut dispatch = dispatch();
    dispatch.execution_strategy = ExecutionStrategy::TensorParallelExpert;
    dispatch.selected_resource_partitions[0].parameter_partitions = vec![contiguous_parameter()];
    dispatch.output_rows = 4;
    for shard in &mut dispatch.shards {
        shard.selected_resource_indices = OrderedMap::new();
        shard.selected_resource_fragments = map_of(vec![("selector", fragments_of("", shard))]);
    }
    validate_exact_selected_resource_coverage(&dispatch, "moe", 0).unwrap();

    let mut fragments = fragments_of("", &dispatch.shards[1]);
    fragments[0].logical_start = 3;
    dispatch.shards[1].selected_resource_fragments = map_of(vec![("selector", fragments)]);
    assert!(
        validate_exact_selected_resource_coverage(&dispatch, "moe", 0)
            .unwrap_err()
            .message()
            .contains("gap")
    );
}
