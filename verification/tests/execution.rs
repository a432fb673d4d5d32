use std::cell::{Cell, RefCell};

use vulkan_distributed::activation_buffers::{
    allocate_distributed_shared_buffer, PrivateReply, SharingReply,
    VulkanDistributedActivationBuffers, VulkanModelBoundaryDirection, VulkanSharedResidentBuffers,
    VulkanSharingFailure, VulkanSharingTarget,
};
use vulkan_distributed::activation_plans::VulkanDistributedActivationBufferPlan;
use vulkan_distributed::contract_planning::{has_sound_numbers, proportional_activation_range};
use vulkan_distributed::contracts::{
    ArtifactRole, ContractArtifact, ContractInput, ContractOutput, ContractReduction,
    ExecutionForm, ExecutionPhase, ExecutionShape, ExecutionStrategy, InputDistribution,
    LocalIntermediateContract, OutputCollection, ParameterPartition, ParameterPartitionKind,
    PartitionExtent, PartitionLaunch, PartitionOrigin, PhysicalExecutionContract,
    ReductionFinalization, ReductionOperation, ResourceKind, VulkanDistributedEquivalenceKind,
    VulkanDistributedEquivalencePlan, WorkgroupXMapping,
};
use vulkan_distributed::dispatch_runners::VulkanDistributedDispatchRunners;
use vulkan_distributed::dispatch_shards::{
    VulkanDistributedActivationRange, VulkanDistributedParameterFragment,
};
use vulkan_distributed::execution_observation::{
    physical_execution_island_kind, physical_execution_island_submission,
    VulkanPhysicalExecutionIslandKind,
};
use vulkan_distributed::execution_plans::{
    VulkanDistributedActivationStorage, VulkanDistributedDispatchDistribution,
    VulkanDistributedDispatchSequenceKind,
    VulkanDistributedDispatchSubmission, VulkanDistributedExecutionPlan,
    VulkanDistributedExecutionPlanSet, VulkanPhysicalExecutionScheduleKind,
    VulkanSharedResidentBufferRoute,
};
use vulkan_distributed::ordered::OrderedMap;
use vulkan_distributed::parameter_buffers::{
    TensorStorageRange, VulkanDistributedParameterBuffers, VulkanDistributedTensorRead,
    VulkanResidentBufferPoolAllocation, VulkanResidentBufferPoolKey,
};
use vulkan_distributed::parameter_mounting::take_given_buffers;
use vulkan_distributed::parameter_pool::take_pooled_buffers;
use vulkan_distributed::parameter_plans::{
    VulkanDistributedParameterAllocation, VulkanDistributedParameterAllocationPlan,
};
use vulkan_distributed::plan_building::has_sound_contracts;
use vulkan_distributed::planning::validate_device_pool;
use vulkan_distributed::prepared::{
    ComponentEdgePlacement,
    TensorContentIdentity, TensorIndex, TensorMetadata, VulkanDescriptorResourceAddress,
    VulkanKernelDescriptorUsage, VulkanKernelScalarBinding, VulkanKernelScalarSource,
    VulkanPhysicalKernelArtifact, VulkanPhysicalKernelArtifactManifest, VulkanPreparedDescriptor,
    VulkanPreparedDispatch, VulkanPreparedDispatchPlan,
};
use vulkan_distributed::queue_dependencies::{
    VulkanDistributedQueueSynchronization, VulkanTimelineSemaphore,
};
use vulkan_distributed::resident::{
    VulkanArenaAllocation, VulkanDeviceFailure, VulkanResidentBuffer,
};
use vulkan_distributed::runner_bindings::VulkanDistributedRunnerInputs;
use vulkan_distributed::runner_execution::VulkanDistributedExecutionRequest;
use vulkan_distributed::runner_feedback::VulkanDistributedFeedbackStep;
use vulkan_distributed::runner_recovery::{
    VulkanDistributedResidencyMiss, VulkanDistributedResolvedResidencyMiss,
};
use vulkan_distributed::runner_stages::{
    has_sound_islands, list_creation_stages, physical_island_coordinator_kind,
    take_predicate_views, VulkanDistributedCoordinatorKind, VulkanDistributedDeviceRequest,
    VulkanDistributedStagePlace,
};
use vulkan_distributed::values::PlainValue;

fn map_of<V: PlainValue>(entries: Vec<(&str, V)>) -> OrderedMap<String, V> {
    let mut map = OrderedMap::new();
    for (key, value) in entries {
        map.insert(key.to_string(), value);
    }
    map
}

fn names(texts: &[&str]) -> Vec<String> {
    texts.iter().map(|text| text.to_string()).collect()
}

fn slot(signal_id: &str, slot: usize, bytes: usize) -> VulkanDescriptorResourceAddress {
    VulkanDescriptorResourceAddress::ActivationSlot {
        component_id: "mlp".to_string(),
        signal_id: signal_id.to_string(),
        slot,
        byte_capacity: bytes,
        signal_byte_capacity: bytes,
    }
}

fn descriptors(
    input: VulkanDescriptorResourceAddress,
    tensor: &str,
    output: VulkanDescriptorResourceAddress,
) -> Vec<VulkanPreparedDescriptor> {
    vec![
        VulkanPreparedDescriptor {
            binding: 0,
            usage: VulkanKernelDescriptorUsage::InputSignal,
            resource: input,
        },
        VulkanPreparedDescriptor {
            binding: 1,
            usage: VulkanKernelDescriptorUsage::Parameter,
            resource: VulkanDescriptorResourceAddress::PermanentParameter {
                tensor: tensor.to_string(),
            },
        },
        VulkanPreparedDescriptor {
            binding: 2,
            usage: VulkanKernelDescriptorUsage::OutputSignal,
            resource: output,
        },
    ]
}

fn contract(node: &str, tensor: &str, workgroups: u64) -> PhysicalExecutionContract {
    PhysicalExecutionContract {
        contract_id: format!("{node}-contract"),
        implementation_digest: format!("{node}-digest"),
        validation_error: None,
        strategy: ExecutionStrategy::TensorParallel,
        phases: vec![ExecutionPhase::Decode, ExecutionPhase::Prefill],
        execution_shapes: vec![ExecutionShape::SingleLane, ExecutionShape::MultiLane],
        operation_family: "linear".to_string(),
        member_node_ids: names(&[node]),
        artifacts: vec![ContractArtifact {
            artifact_id: format!("{node}-kernel"),
            role: ArtifactRole::Primary,
            path: format!("{node}.spv"),
            entry_point: "main".to_string(),
        }],
        dimensions: map_of(vec![
            ("local_size_x", 64u64),
            ("workgroup_count_x", workgroups),
            ("rows", 8),
        ]),
        accumulation_format: "f32".to_string(),
        equivalence: VulkanDistributedEquivalencePlan {
            output: VulkanDistributedEquivalenceKind::BitExact,
            state: VulkanDistributedEquivalenceKind::BitExact,
            absolute_tolerance_bits: None,
            relative_tolerance_bits: None,
        },
        partition_extent: Some(PartitionExtent {
            elements: 64,
            alignment_elements: 1,
        }),
        partition_launch: Some(PartitionLaunch {
            origin: PartitionOrigin::LocalZero,
            origin_push_constant: None,
            workgroup_x: WorkgroupXMapping::Partitioned,
            count_push_constant: None,
        }),
        execution_form: ExecutionForm::ReplicatedInputPartitionedOutput,
        inputs: vec![ContractInput {
            binding: 0,
            distribution: InputDistribution::Replicated,
        }],
        outputs: vec![ContractOutput {
            binding: 2,
            collection: OutputCollection::Concatenated,
            reduction: None,
        }],
        parameter_partitions: vec![ParameterPartition {
            binding: 1,
            resource: tensor.to_string(),
            kind: ParameterPartitionKind::Contiguous,
            dimension: 0,
            alignment_elements: 1,
            logical_elements_per_index: 1,
        }],
        selected_resource_partitions: Vec::new(),
        local_intermediates: vec![LocalIntermediateContract {
            signal: "hidden".to_string(),
            producer_binding: 2,
            consumer_binding: 0,
        }],
        resource_kinds: vec![ResourceKind::PermanentParameter],
    }
}

fn up_contract() -> PhysicalExecutionContract {
    contract("up", "up.weight", 16)
}

fn down_contract() -> PhysicalExecutionContract {
    let mut contract = contract("down", "down.weight", 2);
    contract.partition_launch = Some(PartitionLaunch {
        origin: PartitionOrigin::PushConstantU32,
        origin_push_constant: Some("start".to_string()),
        workgroup_x: WorkgroupXMapping::Repeated,
        count_push_constant: Some("count".to_string()),
    });
    contract.execution_form = ExecutionForm::PartitionedInputPartialOutput;
    contract.inputs[0].distribution = InputDistribution::Sharded;
    contract.outputs[0].collection = OutputCollection::Reduced;
    contract.outputs[0].reduction = Some(ContractReduction {
        operation: ReductionOperation::SumF32,
        dimension_name: "rows".to_string(),
        finalization: ReductionFinalization::StoreF32,
    });
    contract
}

fn prepared() -> VulkanPreparedDispatchPlan {
    VulkanPreparedDispatchPlan {
        dispatches: vec![
            VulkanPreparedDispatch {
                dispatch_index: 4,
                component_id: "mlp".to_string(),
                node_id: "up".to_string(),
                op: "linear".to_string(),
                reusable_family_id: "family".to_string(),
                descriptors: descriptors(
                    slot("input", 0, 32),
                    "up.weight",
                    slot("hidden", 1, 128),
                ),
                physical_execution_contracts: vec![up_contract()],
            },
            VulkanPreparedDispatch {
                dispatch_index: 5,
                component_id: "mlp".to_string(),
                node_id: "down".to_string(),
                op: "linear".to_string(),
                reusable_family_id: "family".to_string(),
                descriptors: descriptors(
                    slot("hidden", 1, 128),
                    "down.weight",
                    slot("output", 2, 32),
                ),
                physical_execution_contracts: vec![down_contract()],
            },
        ],
    }
}

fn tensor(shape: &[usize], byte_count: usize) -> TensorMetadata {
    TensorMetadata {
        layout: Some("row_major".to_string()),
        shape: shape.to_vec(),
        byte_count: Some(byte_count),
        content_identity: TensorContentIdentity::Known {
            identity: format!("content-{byte_count}"),
        },
    }
}

fn tensors() -> TensorIndex {
    TensorIndex {
        tensors: map_of(vec![
            ("up.weight", tensor(&[64, 16], 2048)),
            ("down.weight", tensor(&[64, 8], 1024)),
        ]),
    }
}

fn push_constant(name: &str) -> VulkanKernelScalarBinding {
    VulkanKernelScalarBinding {
        name: name.to_string(),
        scalar_type: "u32".to_string(),
        source: VulkanKernelScalarSource::PushConstant,
    }
}

fn manifest() -> VulkanPhysicalKernelArtifactManifest {
    let artifact = |node: &str, workgroup_count_x: u32, push_constants| {
        VulkanPhysicalKernelArtifact {
            artifact_id: format!("{node}-kernel"),
            op: "linear".to_string(),
            path: format!("{node}.spv"),
            entry_point: "main".to_string(),
            local_size_x: 64,
            workgroup_count_x,
            push_constants,
        }
    };
    VulkanPhysicalKernelArtifactManifest {
        artifacts: vec![
            artifact("up", 16, Vec::new()),
            artifact("down", 2, vec![push_constant("start"), push_constant("count")]),
        ],
    }
}

fn build(
    plan: &VulkanPreparedDispatchPlan,
    manifest: &VulkanPhysicalKernelArtifactManifest,
    devices: &[&str],
    alignment: usize,
) -> Result<VulkanDistributedExecutionPlan, String> {
    assert!(has_sound_contracts(plan));
    let owner = "gpu0".to_string();
    VulkanDistributedExecutionPlan::from_prepared_plans(
        &[(&owner, plan)],
        &tensors(),
        manifest,
        &map_of(vec![("mlp", names(devices))]),
        &[],
        alignment,
    )
    .map_err(|error| error.message())
}

fn planned() -> VulkanDistributedExecutionPlan {
    build(&prepared(), &manifest(), &["gpu0", "gpu1"], 16).unwrap()
}

fn refusal(change: &dyn Fn(&mut VulkanPreparedDispatchPlan)) -> String {
    let mut plan = prepared();
    change(&mut plan);
    build(&plan, &manifest(), &["gpu0", "gpu1"], 16).unwrap_err()
}

#[test]
fn a_row_partitioned_dispatch_is_cut_into_aligned_shards() {
    let plan = planned();
    assert_eq!(plan.device_ids, names(&["gpu0", "gpu1"]));
    assert_eq!(plan.dispatches.len(), 2);
    let up = &plan.dispatches[0];
    assert_eq!(up.owner_device_id, "gpu0");
    assert_eq!(up.dispatch_index, 4);
    assert_eq!(up.distribution, VulkanDistributedDispatchDistribution::OutputRows);
    assert_eq!(up.row_alignment, 8);
    assert_eq!(up.output_rows, 64);
    assert_eq!(up.distributed_parameter_byte_count, 2048);
    let rows = up
        .shards
        .iter()
        .map(|shard| (shard.device_id.as_str(), shard.row_start, shard.row_count))
        .collect::<Vec<_>>();
    assert_eq!(rows, vec![("gpu0", 0, 32), ("gpu1", 32, 32)]);
    assert_eq!(
        up.shards[1].parameters,
        vec![VulkanDistributedParameterFragment {
            binding: 1,
            tensor: "up.weight".to_string(),
            byte_offset: 1024,
            byte_count: 1024,
        }]
    );
    assert_eq!(
        up.shards[1].input_range,
        VulkanDistributedActivationRange {
            byte_offset: 0,
            byte_count: 32
        }
    );
    assert_eq!(up.shards[1].output_byte_offset, 64);
    assert_eq!(up.shards[1].output_byte_count, 64);
    assert_eq!(up.shards[1].workgroup_count_x, 8);
    assert_eq!(up.shards[1].base_workgroup_z, 0);
}

#[test]
fn a_column_partitioned_dispatch_gives_partial_sums() {
    let plan = planned();
    let down = &plan.dispatches[1];
    assert_eq!(down.distribution, VulkanDistributedDispatchDistribution::InputColumns);
    let reduction = down.reduction.as_ref().unwrap();
    assert_eq!(reduction.element_count, 8);
    assert_eq!(reduction.partial_byte_capacity, 32);
    let shard = &down.shards[1];
    assert_eq!((shard.row_start, shard.row_count), (32, 32));
    assert_eq!(shard.base_workgroup_z, 32);
    assert_eq!(shard.workgroup_count_x, 2);
    assert_eq!(
        shard.input_range,
        VulkanDistributedActivationRange {
            byte_offset: 64,
            byte_count: 64
        }
    );
    assert_eq!((shard.output_byte_offset, shard.output_byte_count), (0, 32));
    assert_eq!(shard.parameters[0].byte_offset, 512);
    assert_eq!(shard.parameters[0].byte_count, 512);
    assert_eq!(plan.distributed_parameter_byte_count, 3072);
    assert_eq!(plan.shared_input_byte_capacity, 128);
    assert_eq!(plan.shared_output_byte_capacity, 128);
}

#[test]
fn three_devices_share_the_rows_without_gaps() {
    let plan = build(&prepared(), &manifest(), &["gpu2", "gpu0", "gpu1"], 16).unwrap();
    for dispatch in &plan.dispatches {
        let devices = dispatch
            .shards
            .iter()
            .map(|shard| shard.device_id.as_str())
            .collect::<Vec<_>>();
        assert_eq!(devices, vec!["gpu0", "gpu2", "gpu1"]);
        let mut next = 0;
        for shard in &dispatch.shards {
            assert_eq!(shard.row_start, next);
            assert_eq!(shard.row_start % dispatch.row_alignment, 0);
            assert!(shard.row_count > 0);
            next += shard.row_count;
        }
        assert_eq!(next, dispatch.output_rows);
    }
}

#[test]
fn a_matching_pair_of_dispatches_becomes_one_island() {
    let plan = planned();
    assert!(has_sound_islands(&plan));
    assert_eq!(plan.execution_islands.len(), 1);
    let island = &plan.execution_islands[0];
    assert_eq!(island.island_id, "mlp:4-5:island_0");
    assert_eq!(island.member_node_ids, names(&["up", "down"]));
    assert_eq!(island.contract_ids, names(&["up-contract", "down-contract"]));
    assert_eq!(island.leader().node_id, "up");
    assert_eq!(island.tail().node_id, "down");
    assert!(island.contains_dispatch(5));
    assert!(!island.contains_dispatch(6));
    assert_eq!(island.dispatch_indices(), vec![4, 5]);
    let kinds = island.phase_schedules[0]
        .steps
        .iter()
        .map(|step| step.kind)
        .collect::<Vec<_>>();
    assert_eq!(
        kinds,
        vec![
            VulkanPhysicalExecutionScheduleKind::PublishInputs,
            VulkanPhysicalExecutionScheduleKind::ExecuteShards,
            VulkanPhysicalExecutionScheduleKind::ExecuteShards,
            VulkanPhysicalExecutionScheduleKind::CollectOutputs,
        ]
    );
    let routes = island
        .transport_routes
        .iter()
        .map(|route| {
            (
                route.source_device_id.as_str(),
                route.destination_device_id.as_str(),
                route.byte_capacity,
            )
        })
        .collect::<Vec<_>>();
    assert_eq!(routes, vec![("gpu0", "gpu1", 32), ("gpu1", "gpu0", 32)]);
    assert_eq!(island.synchronization_routes.len(), 2);
}

#[test]
fn island_submissions_are_recorded_by_kind_and_shards() {
    let plan = planned();
    let mut island = plan.execution_islands[0].clone();
    assert_eq!(
        physical_execution_island_submission(&island),
        Some((VulkanPhysicalExecutionIslandKind::TensorParallel, 2))
    );
    island.dispatches[1].execution_strategy = ExecutionStrategy::ExpertParallel;
    assert_eq!(
        physical_execution_island_kind(&island),
        Some(VulkanPhysicalExecutionIslandKind::Hybrid)
    );
    island.dispatches[0].execution_strategy = ExecutionStrategy::SingleDevice;
    assert_eq!(
        physical_execution_island_kind(&island),
        Some(VulkanPhysicalExecutionIslandKind::WholeExpertParallel)
    );
    island.dispatches[1].execution_strategy = ExecutionStrategy::TensorParallelExpert;
    assert_eq!(
        physical_execution_island_kind(&island),
        Some(VulkanPhysicalExecutionIslandKind::IntraExpertTensorParallel)
    );
    island.dispatches[1].execution_strategy = ExecutionStrategy::SingleDevice;
    assert_eq!(physical_execution_island_submission(&island), None);
}

#[test]
fn every_phase_of_a_plan_set_replaces_the_same_dispatches() {
    let owner = "gpu0".to_string();
    let prepared = prepared();
    let plans = VulkanDistributedExecutionPlanSet::from_prepared_plans(
        &[(&owner, &prepared)],
        &tensors(),
        &manifest(),
        &map_of(vec![("mlp", names(&["gpu0", "gpu1"]))]),
        &[],
        16,
    )
    .unwrap();
    for plan in plans.all() {
        assert_eq!(plan.dispatches.len(), 2);
    }
    assert!(plans.decode.replaces_same_logical_dispatches(&plans.prefill));
    let mut fewer = plans.decode.clone();
    fewer.dispatches.truncate(1);
    assert!(!fewer.replaces_same_logical_dispatches(&plans.decode));
}

#[test]
fn feedback_lanes_choose_the_sequence() {
    assert_eq!(
        VulkanDistributedDispatchSequenceKind::for_feedback_lane(Some(0)),
        VulkanDistributedDispatchSequenceKind::FeedbackIndirect
    );
    assert_eq!(
        VulkanDistributedDispatchSequenceKind::for_feedback_lane(None),
        VulkanDistributedDispatchSequenceKind::Direct
    );
}

#[test]
fn device_pools_name_every_device_once() {
    assert!(validate_device_pool(&names(&["gpu0", "gpu1"])).is_ok());
    assert_eq!(
        validate_device_pool(&[]).unwrap_err().message(),
        "distributed execution device pool must not be empty"
    );
    assert_eq!(
        validate_device_pool(&names(&["gpu0", "gpu0"])).unwrap_err().message(),
        "distributed execution device pool contains an empty or repeated device \"gpu0\""
    );
    assert_eq!(
        validate_device_pool(&names(&["gpu0", ""])).unwrap_err().message(),
        "distributed execution device pool contains an empty or repeated device \"\""
    );
}

#[test]
fn plans_are_refused_for_what_is_wrong_with_their_devices() {
    assert_eq!(
        build(&prepared(), &manifest(), &["gpu0", "gpu1"], 12).unwrap_err(),
        "distributed storage-buffer offset alignment 12 is invalid"
    );
    assert_eq!(
        build(&prepared(), &manifest(), &["gpu0"], 16).unwrap_err(),
        "internal sharding for component \"mlp\" requires at least two devices"
    );
    assert_eq!(
        build(&prepared(), &manifest(), &["gpu1", "gpu2"], 16).unwrap_err(),
        "internal shard pool for component \"mlp\" omits its owner device \"gpu0\""
    );
    let quoted = refusal(&|plan| plan.dispatches.truncate(0));
    assert_eq!(
        quoted,
        "requested internal sharding for component \"mlp\" has no compatible distributable dispatch; prepared dispatches for that component: []"
    );
}

#[test]
fn plans_are_refused_for_what_is_wrong_with_their_contracts() {
    let of = |text: &str| format!("distributed dispatch mlp.up {text}");
    assert_eq!(
        refusal(&|plan| {
            plan.dispatches[0].physical_execution_contracts[0].validation_error =
                Some("bad".to_string());
        }),
        of("has an invalid contract: bad")
    );
    assert_eq!(
        refusal(&|plan| {
            plan.dispatches[0].physical_execution_contracts.push(up_contract());
        }),
        of("has 2 ambiguous Decode distribution contracts for reusable artifact family \"family\"")
    );
    assert_eq!(
        refusal(&|plan| {
            plan.dispatches[0].physical_execution_contracts[0].artifacts.clear();
        }),
        of("physical contract \"up-contract\" requires exactly one primary artifact, found 0")
    );
    assert_eq!(
        refusal(&|plan| {
            plan.dispatches[0].physical_execution_contracts[0].artifacts[0].artifact_id =
                "lost".to_string();
        }),
        of("physical contract \"up-contract\" has no loaded artifact \"lost\"")
    );
    assert_eq!(
        refusal(&|plan| {
            plan.dispatches[0].physical_execution_contracts[0].artifacts[0].path =
                "other.spv".to_string();
        }),
        of("physical artifact \"up-kernel\" disagrees with contract \"up-contract\"")
    );
    assert_eq!(
        refusal(&|plan| {
            plan.dispatches[0].physical_execution_contracts[0].partition_extent = None;
        }),
        of("distributed contract has no partition extent")
    );
    assert_eq!(
        refusal(&|plan| {
            plan.dispatches[0].physical_execution_contracts[0].partition_launch = None;
        }),
        of("distributed contract has no partition launch")
    );
    assert_eq!(
        refusal(&|plan| {
            plan.dispatches[0].physical_execution_contracts[0].inputs[0].distribution =
                InputDistribution::Local;
        }),
        of("distributed contract marks input binding 0 as local")
    );
    assert_eq!(
        refusal(&|plan| {
            plan.dispatches[0].physical_execution_contracts[0].outputs[0].collection =
                OutputCollection::Local;
        }),
        of("distributed contract marks its output as local")
    );
    assert_eq!(
        refusal(&|plan| {
            plan.dispatches[0].physical_execution_contracts[0].parameter_partitions[0].kind =
                ParameterPartitionKind::BlockCyclic;
        }),
        of("block-cyclic parameter partitioning is not implemented")
    );
    assert_eq!(
        refusal(&|plan| {
            plan.dispatches[0].physical_execution_contracts[0].parameter_partitions[0].dimension =
                1;
        }),
        of("contiguous parameter binding 1 partitions unsupported dimension 1")
    );
    assert_eq!(
        refusal(&|plan| {
            plan.dispatches[0].physical_execution_contracts[0].parameter_partitions[0].resource =
                "lost".to_string();
        }),
        of("has no tensor metadata for \"lost\"")
    );
    assert_eq!(
        refusal(&|plan| {
            plan.dispatches[0].physical_execution_contracts[0].inputs[0].binding = 7;
        }),
        of("contract bindings inputs={7} outputs={2} parameters={1} dynamic_addresses=[] dynamic_slots=[] disagree with artifact ABI inputs={0} outputs={2} parameters={1} dynamic_addresses={} dynamic_slots={}")
    );
}

#[test]
fn reductions_are_refused_where_their_bytes_disagree() {
    let of = |text: &str| format!("distributed dispatch mlp.down {text}");
    assert_eq!(
        refusal(&|plan| {
            plan.dispatches[1].physical_execution_contracts[0].accumulation_format =
                "bf16".to_string();
        }),
        of("reduced output requires f32 accumulation, contract declares \"bf16\"")
    );
    assert_eq!(
        refusal(&|plan| {
            plan.dispatches[1].descriptors[2].resource = slot("output", 2, 64);
        }),
        of("sum_f32 reduction produces 32 bytes but output signal output has 64 bytes")
    );
    assert_eq!(
        refusal(&|plan| {
            plan.dispatches[1].physical_execution_contracts[0].outputs[0]
                .reduction
                .as_mut()
                .unwrap()
                .dimension_name = "lost".to_string();
        }),
        of("reduction dimension \"lost\" is not declared")
    );
    let mut changed = manifest();
    changed.artifacts[1].push_constants.pop();
    assert_eq!(
        build(&prepared(), &changed, &["gpu0", "gpu1"], 16).unwrap_err(),
        of("partition contract requires exact push-constant ABI [VulkanKernelScalarBinding { name: \"start\", scalar_type: \"u32\", source: PushConstant }, VulkanKernelScalarBinding { name: \"count\", scalar_type: \"u32\", source: PushConstant }]")
    );
}

#[test]
fn contracts_that_divide_nothing_by_nothing_are_not_sound() {
    assert!(has_sound_numbers(&up_contract()));
    let extent = |elements: u64, alignment_elements: u64| {
        Some(PartitionExtent {
            elements,
            alignment_elements,
        })
    };
    let mut contract = up_contract();
    contract.partition_extent = extent(0, 1);
    assert!(has_sound_numbers(&contract));
    contract.parameter_partitions[0].logical_elements_per_index = 0;
    assert!(!has_sound_numbers(&contract));
    contract.partition_extent = extent(64, 1);
    assert!(has_sound_numbers(&contract));
    let mut contract = up_contract();
    contract.parameter_partitions[0].alignment_elements = 0;
    assert!(has_sound_numbers(&contract));
    contract.partition_extent = extent(64, 0);
    assert!(!has_sound_numbers(&contract));
    contract.parameter_partitions[0].alignment_elements = 1;
    assert!(has_sound_numbers(&contract));
    contract.partition_extent = extent(0, 0);
    assert!(!has_sound_numbers(&contract));
    contract.execution_form = ExecutionForm::WholeExpertOwnership;
    assert!(has_sound_numbers(&contract));
    let mut contract = up_contract();
    contract.parameter_partitions[0].alignment_elements = 0;
    let second = up_contract().parameter_partitions.remove(0);
    contract.parameter_partitions.push(second);
    assert!(has_sound_numbers(&contract));
    contract.parameter_partitions[1].alignment_elements = 0;
    assert!(!has_sound_numbers(&contract));
    contract.partition_extent = None;
    assert!(has_sound_numbers(&contract));
    let mut contract = up_contract();
    contract.execution_form = ExecutionForm::Local;
    assert!(!has_sound_numbers(&contract));
    let mut plan = prepared();
    plan.dispatches[0].physical_execution_contracts[0] = contract;
    assert!(!has_sound_contracts(&plan));
    plan.dispatches[0].physical_execution_contracts[0].validation_error = Some("bad".to_string());
    assert!(has_sound_contracts(&plan));
}

#[test]
fn zero_numbers_of_contracts_are_refused() {
    let of = |text: &str| format!("distributed dispatch mlp.up {text}");
    assert_eq!(
        refusal(&|plan| {
            plan.dispatches[0].physical_execution_contracts[0].partition_extent =
                Some(PartitionExtent {
                    elements: 0,
                    alignment_elements: 1,
                });
        }),
        of("output activation capacity 128 is not divisible by logical extent 0")
    );
    assert_eq!(
        refusal(&|plan| {
            plan.dispatches[0].physical_execution_contracts[0].partition_extent =
                Some(PartitionExtent {
                    elements: 64,
                    alignment_elements: 0,
                });
        }),
        of("row distribution dimensions must not be zero")
    );
    assert_eq!(
        refusal(&|plan| {
            plan.dispatches[0].physical_execution_contracts[0].parameter_partitions[0]
                .alignment_elements = 0;
        }),
        of("row distribution dimensions must not be zero")
    );
    assert_eq!(
        refusal(&|plan| {
            plan.dispatches[0].physical_execution_contracts[0].parameter_partitions[0]
                .logical_elements_per_index = 0;
        }),
        of("tensor \"up.weight\" does not divide the logical extent")
    );
}

#[test]
fn activation_ranges_are_in_proportion() {
    let dispatch = &prepared().dispatches[0];
    assert_eq!(
        proportional_activation_range(dispatch, 128, 64, 24, 8, "input").unwrap(),
        VulkanDistributedActivationRange {
            byte_offset: 48,
            byte_count: 16
        }
    );
    assert_eq!(
        proportional_activation_range(dispatch, 100, 64, 24, 8, "input").unwrap_err().message(),
        "distributed dispatch mlp.up input activation capacity 100 is not divisible by logical extent 64"
    );
}

#[test]
fn islands_without_dispatches_are_not_sound() {
    let mut plan = planned();
    plan.execution_islands[0].dispatches[0].shards[0].row_start = usize::MAX;
    assert!(!has_sound_islands(&plan));
    plan.execution_islands[0].dispatches.clear();
    assert!(!has_sound_islands(&plan));
}

#[test]
fn samples_keep_the_budget_and_whole_rows() {
    let plan = planned();
    let devices = names(&["gpu0", "gpu1"]);
    let sample = plan.sampled_for_parameter_budget(&tensors(), &devices, 1536).unwrap().unwrap();
    let allocations =
        VulkanDistributedParameterAllocationPlan::from_sampled_execution_plan(&sample, &tensors())
            .unwrap();
    assert!(allocations.total_byte_capacity <= 1536);
    for dispatch in &sample.dispatches {
        for shard in &dispatch.shards {
            assert_eq!(shard.row_count % dispatch.row_alignment, 0);
            assert!(shard.row_count > 0);
        }
    }
    let whole = plan.sampled_for_parameter_budget(&tensors(), &devices, 1 << 20).unwrap().unwrap();
    assert_eq!(whole.distributed_parameter_byte_count, 3072);
    assert!(plan.sampled_for_parameter_budget(&tensors(), &devices, 1).unwrap().is_none());
    assert_eq!(
        plan.sampled_for_parameter_budget(&tensors(), &devices, 0).unwrap_err().message(),
        "sampled distributed execution requires distinct participants and a positive total parameter budget"
    );
}

fn parameter_plan() -> VulkanDistributedParameterAllocationPlan {
    VulkanDistributedParameterAllocationPlan::from_execution_plan(&planned(), &tensors()).unwrap()
}

#[test]
fn every_fragment_of_a_plan_is_allocated() {
    let parameters = parameter_plan();
    assert_eq!(parameters.allocation_count, 4);
    assert_eq!(parameters.tensor_count, 2);
    assert_eq!(parameters.total_byte_capacity, 3072);
    let found = parameters
        .allocations
        .iter()
        .map(|allocation| {
            (
                allocation.device_id.as_str(),
                allocation.tensor.as_str(),
                allocation.byte_offset,
                allocation.byte_count,
                allocation.use_count,
            )
        })
        .collect::<Vec<_>>();
    assert_eq!(
        found,
        vec![
            ("gpu0", "down.weight", 0, 512, 1),
            ("gpu0", "up.weight", 0, 1024, 1),
            ("gpu1", "down.weight", 512, 512, 1),
            ("gpu1", "up.weight", 1024, 1024, 1),
        ]
    );
    let last = &parameters.allocations[3];
    assert!(last.contains_fragment("gpu1", "up.weight", 1024, 1024));
    assert!(last.contains_fragment("gpu1", "up.weight", 1500, 4));
    assert!(!last.contains_fragment("gpu1", "up.weight", 1000, 100));
    assert!(!last.contains_fragment("gpu1", "up.weight", 2044, 8));
    assert!(!last.contains_fragment("gpu2", "up.weight", 1024, 4));
}

#[test]
fn missing_parts_of_a_tensor_are_refused() {
    let mut plan = planned();
    plan.dispatches[0].shards[1].parameters[0].byte_offset = 1028;
    plan.dispatches[0].shards[1].parameters[0].byte_count = 1020;
    assert!(
        VulkanDistributedParameterAllocationPlan::from_execution_plan(&plan, &tensors()).is_err()
    );
    let sampled =
        VulkanDistributedParameterAllocationPlan::from_sampled_execution_plan(&plan, &tensors())
            .unwrap();
    assert_eq!(sampled.total_byte_capacity, 3068);
}

fn allocation(
    device: &str,
    byte_offset: usize,
    byte_count: usize,
) -> VulkanDistributedParameterAllocation {
    VulkanDistributedParameterAllocation {
        device_id: device.to_string(),
        tensor: "weight".to_string(),
        byte_offset,
        byte_count,
        use_count: 1,
    }
}

fn allocation_plan(
    allocations: Vec<VulkanDistributedParameterAllocation>,
) -> VulkanDistributedParameterAllocationPlan {
    VulkanDistributedParameterAllocationPlan {
        allocation_count: allocations.len(),
        tensor_count: 1,
        total_byte_capacity: allocations.iter().map(|allocation| allocation.byte_count).sum(),
        allocations,
    }
}

#[test]
fn merged_plans_hold_every_byte_once() {
    let merged = VulkanDistributedParameterAllocationPlan::merged(&[
        allocation_plan(vec![allocation("gpu0", 0, 64), allocation("gpu1", 64, 64)]),
        allocation_plan(vec![allocation("gpu0", 32, 64), allocation("gpu0", 200, 8)]),
    ])
    .unwrap();
    let found = merged
        .allocations
        .iter()
        .map(|allocation| {
            (
                allocation.device_id.as_str(),
                allocation.byte_offset,
                allocation.byte_count,
                allocation.use_count,
            )
        })
        .collect::<Vec<_>>();
    assert_eq!(
        found,
        vec![("gpu0", 0, 96, 2), ("gpu0", 200, 8, 1), ("gpu1", 64, 64, 1)]
    );
    assert_eq!(merged.total_byte_capacity, 168);
    assert_eq!(merged.allocation_count, 3);
    assert!(VulkanDistributedParameterAllocationPlan::merged(&[allocation_plan(vec![
        allocation("gpu0", 0, 0),
    ])])
    .is_err());
}

fn arena(
    _: (),
    device_id: &String,
    bytes: &Vec<usize>,
) -> ((), Result<Vec<VulkanArenaAllocation>, VulkanDeviceFailure>) {
    let mut next = 0;
    let handle = if device_id == "gpu0" { 100 } else { 200 };
    let parts = bytes
        .iter()
        .map(|byte_count| {
            let byte_offset = next;
            next += byte_count;
            VulkanArenaAllocation {
                buffer: VulkanResidentBuffer {
                    handle,
                    byte_capacity: 1 << 16,
                },
                byte_offset,
            }
        })
        .collect();
    ((), Ok(parts))
}

fn read(
    _: (),
    tensor: &String,
    ranges: &Vec<TensorStorageRange>,
) -> ((), Result<VulkanDistributedTensorRead, String>) {
    ((), Ok(read_of(tensor, ranges)))
}

fn read_of(tensor: &String, ranges: &Vec<TensorStorageRange>) -> VulkanDistributedTensorRead {
    VulkanDistributedTensorRead {
        byte_count: if tensor == "up.weight" { 2048 } else { 1024 },
        source_file: "weights.bin".to_string(),
        payloads: ranges
            .iter()
            .map(|range| {
                (range.byte_offset..range.byte_offset + range.byte_count)
                    .map(|byte| (byte % 251) as u8)
                    .collect()
            })
            .collect(),
    }
}

fn mounted() -> VulkanDistributedParameterBuffers {
    VulkanDistributedParameterBuffers::allocate_and_load(
        &parameter_plan(),
        (),
        &arena,
        &read,
        &|_: (),
          _target: &VulkanResidentBuffer,
          _offset: usize,
          _bytes: &Vec<u8>|
         -> ((), Result<(), String>) {
            ((), Ok(()))
        },
    )
    .0
    .unwrap()
}

#[test]
fn mounted_parameters_are_written_where_they_are_found() {
    let written = RefCell::new(Vec::new());
    let buffers = VulkanDistributedParameterBuffers::allocate_and_load(
        &parameter_plan(),
        (),
        &arena,
        &read,
        &|_: (),
          target: &VulkanResidentBuffer,
          offset: usize,
          bytes: &Vec<u8>|
         -> ((), Result<(), String>) {
            written.borrow_mut().push((target.handle, offset, bytes.len(), bytes[0]));
            ((), Ok(()))
        },
    )
    .0
    .unwrap();
    assert_eq!(buffers.total_byte_capacity, 3072);
    let mut written = written.into_inner();
    written.sort();
    assert_eq!(
        written,
        vec![
            (100, 0, 512, 0),
            (100, 512, 1024, 0),
            (200, 0, 512, (512 % 251) as u8),
            (200, 512, 1024, (1024 % 251) as u8),
        ]
    );
    let found = buffers.parameter_buffer("gpu1", "up.weight", 1040, 16).unwrap();
    let binding = found.kernel_binding_for_fragment(3, 1040, 16).unwrap();
    assert_eq!(binding.binding, 3);
    assert_eq!(binding.buffer.handle, 200);
    assert_eq!(binding.byte_offset, 528);
    assert_eq!(binding.byte_count, 16);
    assert_eq!(found.kernel_binding(1).byte_count, 1024);
    assert!(buffers.parameter_buffer("gpu0", "up.weight", 1040, 16).is_none());
}

#[test]
fn failures_while_mounting_are_reported() {
    let write = |_: (),
                 _target: &VulkanResidentBuffer,
                 _offset: usize,
                 _bytes: &Vec<u8>|
     -> ((), Result<(), String>) { ((), Ok(())) };
    let lost = VulkanDistributedParameterBuffers::allocate_and_load(
        &parameter_plan(),
        (),
        &|_: (),
          _device: &String,
          _bytes: &Vec<usize>|
         -> ((), Result<Vec<VulkanArenaAllocation>, VulkanDeviceFailure>) {
            let reply = Err(VulkanDeviceFailure::Unresolved {
                reason: "gone".to_string(),
            });
            ((), reply)
        },
        &read,
        &write,
    )
    .0
    .unwrap_err();
    assert!(lost.message().contains("gone"));
    assert!(lost.message().contains("\"gpu0\""));
    let unread = VulkanDistributedParameterBuffers::allocate_and_load(
        &parameter_plan(),
        (),
        &arena,
        &|_: (),
          _tensor: &String,
          _ranges: &Vec<TensorStorageRange>|
         -> ((), Result<VulkanDistributedTensorRead, String>) {
            ((), Err("unreadable".to_string()))
        },
        &write,
    )
    .0
    .unwrap_err();
    assert!(unread.message().contains("unreadable"));
}

#[test]
fn tensors_are_read_once_for_all_their_ranges() {
    let parameters = parameter_plan();
    let loads = parameters.load_schedule();
    assert_eq!(loads.len(), 2);
    assert_eq!(loads[0].tensor, "down.weight");
    let ranges = loads[0].storage_ranges();
    assert_eq!(
        ranges,
        vec![
            TensorStorageRange {
                byte_offset: 0,
                byte_count: 512
            },
            TensorStorageRange {
                byte_offset: 512,
                byte_count: 512
            },
        ]
    );
    assert_eq!(loads[0].ranges[1].allocation_indices, vec![2]);
    let bytes = Cell::new(0);
    let report = parameters
        .load_from_tensor_index((), &read, &|_: (),
                                             _target: &VulkanDistributedParameterAllocation,
                                             payload: &Vec<u8>| {
            bytes.set(bytes.get() + payload.len());
            ((), Ok(()))
        })
        .0
        .unwrap();
    assert_eq!(bytes.get(), 3072);
    assert_eq!(report.tensor_count, 2);
    assert_eq!(report.source_file_count, 1);
    assert_eq!(report.allocation_count, 4);
    assert_eq!(report.write_count, 4);
    assert_eq!(report.total_bytes_read, 3072);
    assert_eq!(report.total_bytes_written, 3072);
}

#[test]
fn devices_are_handed_from_call_to_call() {
    let parameters = parameter_plan();
    let (outcome, log) = VulkanDistributedParameterBuffers::allocate_and_load(
        &parameters,
        Vec::new(),
        &|mut log: Vec<String>, device: &String, bytes: &Vec<usize>| {
            log.push(format!("allocate {device} {bytes:?}"));
            (log, arena((), device, bytes).1)
        },
        &|mut log: Vec<String>, tensor: &String, ranges: &Vec<TensorStorageRange>| {
            log.push(format!("read {tensor}"));
            (log, Ok(read_of(tensor, ranges)))
        },
        &|mut log: Vec<String>, target: &VulkanResidentBuffer, offset: usize, bytes: &Vec<u8>| {
            log.push(format!("write {} {offset} {}", target.handle, bytes.len()));
            (log, Ok(()))
        },
    );
    assert!(outcome.is_ok());
    assert_eq!(
        log,
        vec![
            "allocate gpu0 [512, 1024]",
            "allocate gpu1 [512, 1024]",
            "read down.weight",
            "write 100 0 512",
            "write 200 0 512",
            "read up.weight",
            "write 100 512 1024",
            "write 200 512 1024",
        ]
    );
    let mut repeated = parameters;
    let again = repeated.allocations[0].clone();
    repeated.allocations.push(again);
    let (refused, left) = VulkanDistributedParameterBuffers::allocate_and_load(
        &repeated,
        7,
        &|_: i32, _device: &String, _bytes: &Vec<usize>| panic!("a device was asked"),
        &|_: i32, _tensor: &String, _ranges: &Vec<TensorStorageRange>| panic!("a tensor was read"),
        &|_: i32, _target: &VulkanResidentBuffer, _offset: usize, _bytes: &Vec<u8>| {
            panic!("a buffer was written")
        },
    );
    assert!(refused.is_err());
    assert_eq!(left, 7);
}

#[test]
fn a_pool_is_searched_extended_and_told_in_turn() {
    let (outcome, log) = VulkanDistributedParameterBuffers::allocate_and_load_from_pool(
        &parameter_plan(),
        &tensors(),
        Vec::new(),
        &|mut log: Vec<String>, key: &VulkanResidentBufferPoolKey| {
            log.push(format!("look {}", key.device_id));
            let kept = key.device_id == "gpu0";
            (log, Ok(if kept { Some(arena_part(9, 0)) } else { None }))
        },
        &|mut log: Vec<String>, keys: &Vec<VulkanResidentBufferPoolKey>| {
            log.push(format!("allocate {}", keys.len()));
            (log, Ok(keys.iter().map(|_| arena_part(1, 0)).collect()))
        },
        &|mut log: Vec<String>, tensor: &String, ranges: &Vec<TensorStorageRange>| {
            log.push(format!("read {tensor}"));
            (log, Ok(read_of(tensor, ranges)))
        },
        &|mut log: Vec<String>, target: &VulkanResidentBuffer, _offset: usize, bytes: &Vec<u8>| {
            log.push(format!("write {} {}", target.handle, bytes.len()));
            (log, Ok(()))
        },
        &|mut log: Vec<String>, batch: &Vec<VulkanResidentBufferPoolAllocation>| {
            log.push(format!("publish {}", batch.len()));
            (log, Ok(()))
        },
    );
    assert!(outcome.is_ok());
    assert_eq!(
        log,
        vec![
            "look gpu0",
            "look gpu0",
            "look gpu1",
            "look gpu1",
            "allocate 2",
            "read down.weight",
            "write 1 512",
            "read up.weight",
            "write 1 1024",
            "publish 2",
        ]
    );
}

#[test]
fn pooled_parameters_are_loaded_only_where_they_are_new() {
    let parameters = parameter_plan();
    let written = Cell::new(0);
    let published = RefCell::new(Vec::new());
    let pooled = VulkanDistributedParameterBuffers::allocate_and_load_from_pool(
        &parameters,
        &tensors(),
        (),
        &|_: (),
          key: &VulkanResidentBufferPoolKey|
         -> ((), Result<Option<VulkanArenaAllocation>, String>) {
            let reply = if key.device_id == "gpu0" {
                Ok(Some(VulkanArenaAllocation {
                    buffer: VulkanResidentBuffer {
                        handle: 900,
                        byte_capacity: 1 << 16,
                    },
                    byte_offset: 0,
                }))
            } else {
                Ok(None)
            };
            ((), reply)
        },
        &|_: (),
          keys: &Vec<VulkanResidentBufferPoolKey>|
         -> ((), Result<Vec<VulkanArenaAllocation>, String>) {
            let reply = Ok(keys
                .iter()
                .map(|_| VulkanArenaAllocation {
                    buffer: VulkanResidentBuffer {
                        handle: 901,
                        byte_capacity: 1 << 16,
                    },
                    byte_offset: 0,
                })
                .collect());
            ((), reply)
        },
        &read,
        &|_: (),
          _target: &VulkanResidentBuffer,
          _offset: usize,
          bytes: &Vec<u8>|
         -> ((), Result<(), String>) {
            written.set(written.get() + bytes.len());
            ((), Ok(()))
        },
        &|_: (), batch: &Vec<VulkanResidentBufferPoolAllocation>| -> ((), Result<(), String>) {
            published.borrow_mut().push(batch.len());
            ((), Ok(()))
        },
    )
    .0
    .unwrap();
    assert_eq!(written.get(), 1536);
    assert_eq!(published.into_inner(), vec![2]);
    assert_eq!(pooled.parameter_buffer("gpu0", "up.weight", 0, 4).unwrap().buffer.handle, 900);
    assert_eq!(pooled.parameter_buffer("gpu1", "up.weight", 1024, 4).unwrap().buffer.handle, 901);
}

fn activation_plan() -> VulkanDistributedActivationBufferPlan {
    VulkanDistributedActivationBufferPlan::from_execution_plan(&planned()).unwrap()
}

#[test]
fn shared_reduced_and_private_activations_are_planned() {
    let plan = activation_plan();
    let shared = plan
        .allocations
        .iter()
        .map(|allocation| {
            (
                allocation.slot,
                allocation.byte_capacity,
                allocation.device_ids.len(),
                allocation.input_use_count,
                allocation.output_use_count,
            )
        })
        .collect::<Vec<_>>();
    assert_eq!(shared, vec![(0, 32, 2, 1, 0), (2, 32, 1, 0, 1)]);
    assert_eq!(plan.reduction_allocations.len(), 1);
    assert_eq!(plan.reduction_allocations[0].plane_byte_capacity, 32);
    assert_eq!(plan.reduction_allocations[0].byte_capacity, 64);
    assert_eq!(plan.private_intermediate_allocations.len(), 1);
    let devices = &plan.private_intermediate_allocations[0].devices;
    assert_eq!(devices.len(), 2);
    assert_eq!(devices[1].device_id, "gpu1");
    assert_eq!(devices[1].byte_capacity, 64);
    assert_eq!(plan.allocation_count, 5);
    assert_eq!(plan.import_count, 5);
    assert_eq!(plan.reference_count, 9);
    assert_eq!(plan.total_shared_byte_capacity, 128);
    assert_eq!(plan.total_private_byte_capacity, 128);
    assert!(plan.allocation("gpu0", "mlp", 2).is_some());
    assert!(plan.allocation("gpu0", "mlp", 1).is_none());
    assert!(plan.edge_allocation(0).is_none());
    assert!(plan.reduction_allocation("gpu0", 5).is_some());
    assert!(plan.reduction_allocation("gpu0", 4).is_none());
    assert!(plan.private_intermediate_allocation(4, 5).is_some());
    assert!(plan.private_intermediate_allocation(5, 4).is_none());
}

#[test]
fn alternatives_share_the_larger_buffers() {
    let first = activation_plan();
    let mut second = activation_plan();
    second.allocations[0].input_use_count = 3;
    second.allocations[1].device_ids = names(&["gpu0", "gpu1"]);
    second.reduction_allocations[0].plane_byte_capacity = 64;
    second.reduction_allocations[0].byte_capacity = 128;
    second.private_intermediate_allocations[0].devices[0].byte_capacity = 16;
    assert!(first.has_same_shared_activation_interface(&first));
    assert!(!first.has_same_shared_activation_interface(&second));
    let merged =
        VulkanDistributedActivationBufferPlan::merged_for_alternatives(&[first, second]).unwrap();
    assert_eq!(merged.allocations[0].input_use_count, 3);
    assert_eq!(merged.allocations[1].device_ids, names(&["gpu0", "gpu1"]));
    assert_eq!(merged.reduction_allocations[0].plane_byte_capacity, 64);
    assert_eq!(merged.private_intermediate_allocations[0].devices[0].byte_capacity, 64);
    assert_eq!(merged.total_shared_byte_capacity, 32 + 32 + 128);
}

#[test]
fn alternatives_that_disagree_are_refused() {
    let merge = |change: &dyn Fn(&mut VulkanDistributedActivationBufferPlan)| {
        let mut changed = activation_plan();
        change(&mut changed);
        VulkanDistributedActivationBufferPlan::merged_for_alternatives(&[
            activation_plan(),
            changed,
        ])
        .unwrap_err()
        .message()
    };
    assert_eq!(
        VulkanDistributedActivationBufferPlan::merged_for_alternatives(&[]).unwrap_err().message(),
        "distributed activation alternatives must not be empty"
    );
    assert_eq!(
        merge(&|plan| plan.route = VulkanSharedResidentBufferRoute::ExternalDeviceLocal),
        "distributed activation alternatives require different transport routes"
    );
    assert_eq!(
        merge(&|plan| plan.allocations[0].byte_capacity = 96),
        "distributed alternatives disagree on one shared activation identity"
    );
    assert_eq!(
        merge(&|plan| plan.allocations[0].device_ids.reverse()),
        "distributed alternative has an invalid shared activation allocation"
    );
    assert_eq!(
        merge(&|plan| plan.reduction_allocations[0].byte_capacity = 65),
        "distributed alternative has an invalid reduction allocation"
    );
    assert_eq!(
        merge(&|plan| plan.private_intermediate_allocations[0].devices.clear()),
        "distributed alternative has an empty private intermediate"
    );
    assert_eq!(
        merge(&|plan| plan.private_intermediate_allocations[0].devices[0].byte_capacity = 0),
        "distributed alternative has an invalid private intermediate allocation"
    );
}

fn share(
    _: (),
    _target: VulkanSharingTarget,
    _owner: &String,
    peers: &Vec<String>,
    bytes: usize,
    route: VulkanSharedResidentBufferRoute,
) -> ((), SharingReply) {
    let buffers = (0..=peers.len())
        .map(|place| VulkanResidentBuffer {
            handle: 1000 + 10 * bytes as u64 + place as u64,
            byte_capacity: bytes,
        })
        .collect();
    let shared = VulkanSharedResidentBuffers {
        route,
        external_device_local_error: None,
        buffers,
    };
    ((), Ok(shared))
}

fn create_private(
    _: (),
    _allocation: usize,
    _place: usize,
    device_id: &String,
    bytes: usize,
) -> ((), PrivateReply) {
    let buffer = VulkanResidentBuffer {
        handle: if device_id == "gpu0" { 70 } else { 71 },
        byte_capacity: bytes,
    };
    ((), Ok(buffer))
}

fn activations() -> VulkanDistributedActivationBuffers {
    VulkanDistributedActivationBuffers::allocate(&activation_plan(), (), &share, &create_private)
        .0
        .unwrap()
}

#[test]
fn planned_activations_are_found_on_their_devices() {
    let buffers = activations();
    let plan = planned();
    let up = &plan.dispatches[0];
    let down = &plan.dispatches[1];
    let input = |device: &str| buffers.activation_buffer("gpu0", &up.input_activation, device);
    assert_eq!(input("gpu0").unwrap().handle, 1320);
    assert_eq!(input("gpu1").unwrap().handle, 1321);
    assert!(input("gpu2").is_none());
    assert!(buffers.activation_buffer("gpu0", &up.output_activation, "gpu0").is_none());
    assert_eq!(
        buffers.activation_buffer("gpu0", &down.output_activation, "gpu0").unwrap().handle,
        1320
    );
    assert!(buffers.activation_buffer("gpu0", &down.output_activation, "gpu1").is_none());
    assert_eq!(buffers.reduction_partial_buffer("gpu0", 5, "gpu1").unwrap().handle, 1641);
    assert!(buffers.reduction_partial_buffer("gpu0", 4, "gpu1").is_none());
    assert_eq!(buffers.private_intermediate_buffer(4, 5, "gpu1").unwrap().handle, 71);
    assert!(buffers.edge_buffer(0, "gpu0").is_none());
    let overrides = buffers.activation_overrides_for_owner_device("gpu0");
    let slots = overrides.iter().map(|entry| entry.slot).collect::<Vec<_>>();
    assert_eq!(slots, vec![0, 2]);
    assert!(buffers.boundary_overrides_for_owner_device("gpu0").is_empty());
}

#[test]
fn boundary_signals_are_overridden_for_their_owner() {
    let mut plan = prepared();
    plan.dispatches[0].descriptors[0].resource = VulkanDescriptorResourceAddress::BoundaryInput {
        signal_id: "input".to_string(),
    };
    let open = build(&plan, &manifest(), &["gpu0", "gpu1"], 16).unwrap();
    assert_eq!(
        open.dispatches[0].input_activation.storage,
        VulkanDistributedActivationStorage::BoundaryInput
    );
    assert_eq!(open.dispatches[0].input_activation.byte_capacity, 1);
    let owner = "gpu0".to_string();
    let edge = ComponentEdgePlacement {
        edge_index: 6,
        source_component_id: "embedding".to_string(),
        source_port_id: "output".to_string(),
        source_component_port: None,
        source_device_id: "gpu1".to_string(),
        destination_component_id: "mlp".to_string(),
        destination_port_id: "input".to_string(),
        destination_component_port: None,
        shape: vec![2, 16],
    };
    let connected = VulkanDistributedExecutionPlan::from_prepared_plans(
        &[(&owner, &plan)],
        &tensors(),
        &manifest(),
        &map_of(vec![("mlp", names(&["gpu0", "gpu1"]))]),
        &[edge],
        16,
    )
    .unwrap();
    let input = &connected.dispatches[0].input_activation;
    assert_eq!(
        input.storage,
        VulkanDistributedActivationStorage::Edge {
            edge_index: 6,
            owner_device_id: "gpu1".to_string()
        }
    );
    assert_eq!(input.byte_capacity, 64);
    assert_eq!(connected.execution_islands[0].entry_device_id, "gpu1");
    let mut buffers = activations();
    buffers.allocations[0].planned.storage =
        VulkanDistributedActivationStorage::BoundaryInput;
    let overrides = buffers.boundary_overrides_for_owner_device("gpu0");
    assert_eq!(overrides.len(), 1);
    assert_eq!(overrides[0].direction, VulkanModelBoundaryDirection::Input);
    assert_eq!(overrides[0].signal_id, "input");
}

#[test]
fn lanes_multiply_the_buffers() {
    let buffers = VulkanDistributedActivationBuffers::allocate_for_lanes(
        &activation_plan(),
        3,
        (),
        &share,
        &create_private,
    )
    .0
    .unwrap();
    assert_eq!(buffers.lane_capacity, 3);
    assert_eq!(buffers.total_shared_byte_capacity, 384);
    assert_eq!(buffers.total_private_byte_capacity, 384);
    assert_eq!(buffers.import_count, 5);
    let refused = VulkanDistributedActivationBuffers::allocate_for_lanes(
        &activation_plan(),
        0,
        (),
        &|_: (),
          _target: VulkanSharingTarget,
          _owner: &String,
          _peers: &Vec<String>,
          _bytes: usize,
          _route: VulkanSharedResidentBufferRoute|
         -> ((), SharingReply) { panic!("a device was asked without lanes") },
        &|_: (),
          _allocation: usize,
          _place: usize,
          _device_id: &String,
          _bytes: usize|
         -> ((), PrivateReply) { panic!("a device was asked without lanes") },
    )
    .0
    .unwrap_err();
    assert_eq!(
        refused.message(),
        "distributed activation lane capacity must not be zero"
    );
}

#[test]
fn plain_allocations_have_one_lane() {
    let counted_share = |asked: usize,
                         target: VulkanSharingTarget,
                         owner: &String,
                         peers: &Vec<String>,
                         bytes: usize,
                         route: VulkanSharedResidentBufferRoute| {
        (asked + 1, share((), target, owner, peers, bytes, route).1)
    };
    let counted_create =
        |asked: usize, allocation: usize, place: usize, device_id: &String, bytes: usize| {
            (asked + 1, create_private((), allocation, place, device_id, bytes).1)
        };
    let plan = activation_plan();
    let (plain, asked) =
        VulkanDistributedActivationBuffers::allocate(&plan, 0, &counted_share, &counted_create);
    let (laned, again) = VulkanDistributedActivationBuffers::allocate_for_lanes(
        &plan,
        1,
        0,
        &counted_share,
        &counted_create,
    );
    let (plain, laned) = (plain.unwrap(), laned.unwrap());
    assert_eq!(asked, again);
    assert_eq!(asked, 5);
    assert_eq!(plain.lane_capacity, 1);
    assert_eq!(plain.import_count, laned.import_count);
    assert_eq!(plain.total_shared_byte_capacity, laned.total_shared_byte_capacity);
    assert_eq!(plain.total_private_byte_capacity, laned.total_private_byte_capacity);
    assert_eq!(plain.allocations.len(), laned.allocations.len());
}

#[test]
fn devices_that_do_not_share_are_named() {
    let failed = VulkanDistributedActivationBuffers::allocate(
        &activation_plan(),
        (),
        &|_: (),
          _target: VulkanSharingTarget,
          _owner: &String,
          _peers: &Vec<String>,
          _bytes: usize,
          _route: VulkanSharedResidentBufferRoute|
         -> ((), SharingReply) {
            let reply = Err(VulkanSharingFailure::ParticipantUnresolved {
                device_id: "gpu1".to_string(),
                reason: "gone".to_string(),
            });
            ((), reply)
        },
        &create_private,
    )
    .0
    .unwrap_err();
    assert!(failed.message().contains("\"gpu1\""));
    assert!(failed.message().contains("gone"));
}

fn inputs() -> VulkanDistributedRunnerInputs {
    VulkanDistributedRunnerInputs {
        parameter_buffers: mounted(),
        activation_buffers: activations(),
        dynamic_resource_buffers: OrderedMap::new(),
        resource_stores: OrderedMap::new(),
        transaction_predicates: None,
        execution_scope: "target".to_string(),
        artifacts: map_of(vec![("up-kernel", 64u32), ("down-kernel", 64)]),
    }
}

fn semaphores(helper: &str) -> VulkanDistributedQueueSynchronization {
    let semaphore = |device_handle, semaphore_handle| VulkanTimelineSemaphore {
        device_handle,
        semaphore_handle,
    };
    VulkanDistributedQueueSynchronization {
        device_id: helper.to_string(),
        ready_source: semaphore(1, 11),
        ready_wait: semaphore(2, 12),
        done_source: semaphore(2, 13),
        done_wait: semaphore(1, 14),
    }
}

fn synchronize(
    _: (),
    _number: usize,
    _owner: &String,
    helper: &String,
    _label: &String,
) -> ((), Result<VulkanDistributedQueueSynchronization, String>) {
    ((), Ok(semaphores(helper)))
}

fn runners() -> VulkanDistributedDispatchRunners {
    let next = Cell::new(0);
    VulkanDistributedDispatchRunners::create(
        &planned(),
        &inputs(),
        (),
        &|_: (),
          _number: usize,
          _place: VulkanDistributedStagePlace,
          _asked: &VulkanDistributedDeviceRequest|
         -> ((), Result<u64, String>) {
            next.set(next.get() + 1);
            ((), Ok(next.get()))
        },
        &synchronize,
    )
    .0
    .unwrap()
}

#[test]
fn devices_are_asked_for_the_work_of_every_shard() {
    let (stages, counted) = list_creation_stages(&planned(), &inputs());
    assert_eq!(counted.unwrap(), 4);
    let asked = stages
        .iter()
        .map(|stage| match &stage.request {
            VulkanDistributedDeviceRequest::ResolveDevice { device_id } => {
                format!("resolve {device_id}")
            }
            VulkanDistributedDeviceRequest::CreateDispatch { kernel } => {
                format!("kernel {} on {}", kernel.artifact_id, kernel.device_id)
            }
            VulkanDistributedDeviceRequest::CreateSequence { device_id } => {
                format!("sequence on {device_id}")
            }
            VulkanDistributedDeviceRequest::PrepareSteps { steps, .. } => {
                format!("{} steps", steps.len())
            }
            VulkanDistributedDeviceRequest::RecordSequence { device_id, .. } => {
                format!("record on {device_id}")
            }
            VulkanDistributedDeviceRequest::Synchronize { device_id, .. } => {
                format!("synchronize with {device_id}")
            }
            VulkanDistributedDeviceRequest::CreateReduction { dispatch_index, .. } => {
                format!("reduce {dispatch_index}")
            }
            other => format!("{other:?}"),
        })
        .collect::<Vec<_>>();
    assert_eq!(
        asked,
        vec![
            "resolve gpu0",
            "resolve gpu0",
            "kernel up-kernel on gpu0",
            "kernel down-kernel on gpu0",
            "sequence on gpu0",
            "2 steps",
            "record on gpu0",
            "resolve gpu1",
            "kernel up-kernel on gpu1",
            "kernel down-kernel on gpu1",
            "sequence on gpu1",
            "2 steps",
            "record on gpu1",
            "resolve gpu1",
            "synchronize with gpu1",
            "reduce 5",
        ]
    );
}

#[test]
fn kernels_are_bound_to_shared_private_and_partial_buffers() {
    let (stages, _) = list_creation_stages(&planned(), &inputs());
    let kernels = stages
        .iter()
        .filter_map(|stage| match &stage.request {
            VulkanDistributedDeviceRequest::CreateDispatch { kernel } => Some(kernel),
            _ => None,
        })
        .collect::<Vec<_>>();
    let bound = |kernel: usize| {
        kernels[kernel]
            .bindings
            .iter()
            .map(|binding| {
                (
                    binding.binding,
                    binding.buffer.handle,
                    binding.byte_offset,
                    binding.byte_count,
                )
            })
            .collect::<Vec<_>>()
    };
    assert_eq!(
        bound(2),
        vec![(0, 1321, 0, 32), (2, 71, 0, 64), (1, 200, 512, 1024)]
    );
    assert_eq!(
        bound(3),
        vec![(0, 71, 0, 64), (2, 1641, 32, 32), (1, 200, 0, 512)]
    );
    assert_eq!(kernels[2].push_constant_byte_count, 0);
    assert_eq!(kernels[3].push_constant_byte_count, 8);
    assert_eq!(
        kernels[3].label,
        "component=mlp node=down distributed=device:gpu1 rows=32..64 base_z=32 distribution=InputColumns"
    );
}

#[test]
fn created_runners_hold_what_the_devices_gave() {
    let runners = runners();
    assert_eq!(runners.dispatch_count, 2);
    assert_eq!(runners.shard_count, 4);
    assert_eq!(runners.dispatches.len(), 1);
    let runner = runners.dispatch("gpu0", 4).unwrap();
    assert!(runners.dispatch("gpu0", 5).is_none());
    assert_eq!(runner.shards[0].resident_dispatches, vec![3, 4]);
    assert_eq!(runner.shards[0].sequence, 5);
    assert_eq!(runner.shards[1].resident_dispatches, vec![9, 10]);
    assert_eq!(runner.shards[1].sequence, 11);
    assert_eq!(runner.reduction, Some(15));
    assert_eq!(runner.residency_commit, None);
    assert_eq!(runner.coordinator_sequence(), Some(15));
    assert_eq!(runner.helper_synchronization.len(), 1);
    assert_eq!(runners.leader_dispatch_index("gpu0", 5), Some(4));
    assert_eq!(runners.execution_island("gpu0", 5).unwrap().island_id, "mlp:4-5:island_0");
    assert!(runners.execution_island("gpu1", 5).is_none());
    assert!(!runners.requires_residency_checkpoint("gpu0", 4));
    assert_eq!(runners.feedback_dispatch_count().unwrap(), 4);
    assert_eq!(
        physical_island_coordinator_kind(&runner.planned, false).unwrap(),
        VulkanDistributedCoordinatorKind::NumericReduction
    );
}

#[test]
fn a_failed_request_ends_the_creation_of_runners() {
    let failed = VulkanDistributedDispatchRunners::create(
        &planned(),
        &inputs(),
        (),
        &|_: (),
          _number: usize,
          _place: VulkanDistributedStagePlace,
          asked: &VulkanDistributedDeviceRequest|
         -> ((), Result<u64, String>) {
            let reply = match asked {
                VulkanDistributedDeviceRequest::RecordSequence { device_id, .. }
                    if device_id == "gpu1" =>
                {
                    Err("lost".to_string())
                }
                _ => Ok(1),
            };
            ((), reply)
        },
        &synchronize,
    )
    .0
    .unwrap_err();
    assert_eq!(
        failed.message(),
        "failed to record distributed sequence 4..5 shard on \"gpu1\": lost"
    );
    let mut incomplete = inputs();
    incomplete.artifacts = map_of(vec![("up-kernel", 64u32)]);
    let missing = VulkanDistributedDispatchRunners::create(
        &planned(),
        &incomplete,
        (),
        &|_: (),
          _number: usize,
          _place: VulkanDistributedStagePlace,
          _asked: &VulkanDistributedDeviceRequest|
         -> ((), Result<u64, String>) { ((), Ok(1)) },
        &synchronize,
    )
    .0
    .unwrap_err();
    assert_eq!(
        missing.message(),
        "distributed dispatch mlp.down is missing physical artifact \"down-kernel\""
    );
}

fn submission(dependency_value: u64) -> VulkanDistributedDispatchSubmission {
    VulkanDistributedDispatchSubmission {
        dependency_value,
        consume_owner_ready_signal: true,
        prepare_owner_continuation: false,
        signal_completion: true,
        sequence_kind: VulkanDistributedDispatchSequenceKind::Direct,
    }
}

#[test]
fn the_coordinator_waits_for_what_the_helpers_signal() {
    let asked = RefCell::new(Vec::new());
    let run = runners()
        .submit_dispatch_with_device_dependencies(
            "gpu0",
            4,
            submission(9),
            (),
            &|_: (), request: &VulkanDistributedExecutionRequest| -> ((), Result<u64, String>) {
                asked.borrow_mut().push(request.clone());
                ((), Ok(0))
            },
        )
        .0
        .unwrap();
    assert_eq!(run.dispatch_index, 4);
    assert_eq!(run.shard_count, 2);
    let submitted = asked
        .into_inner()
        .into_iter()
        .filter_map(|request| match request {
            VulkanDistributedExecutionRequest::Submit {
                device_id,
                sequence,
                wait_points,
                signal_points,
                signal_completion,
            } => Some((
                device_id,
                sequence,
                wait_points
                    .iter()
                    .map(|point| (point.semaphore.semaphore_handle, point.value))
                    .collect::<Vec<_>>(),
                signal_points
                    .iter()
                    .map(|point| (point.semaphore.semaphore_handle, point.value))
                    .collect::<Vec<_>>(),
                signal_completion,
            )),
            _ => None,
        })
        .collect::<Vec<_>>();
    assert_eq!(
        submitted,
        vec![
            ("gpu0".to_string(), 5, vec![], vec![], false),
            ("gpu1".to_string(), 11, vec![(12, 9)], vec![(13, 9)], false),
            ("gpu0".to_string(), 15, vec![(14, 9)], vec![], true),
        ]
    );
}

#[test]
fn submissions_are_refused_and_cleaned_up() {
    let runners = runners();
    let unknown = runners
        .submit_dispatch_with_device_dependencies(
            "gpu0",
            9,
            submission(1),
            (),
            &|_: (),
              _request: &VulkanDistributedExecutionRequest|
             -> ((), Result<u64, String>) {
                ((), Ok(0))
            },
        )
        .0
        .unwrap_err();
    assert!(unknown.message().contains("9"));
    let mut indirect = submission(1);
    indirect.sequence_kind = VulkanDistributedDispatchSequenceKind::FeedbackIndirect;
    let unrecorded = runners
        .submit_dispatch_with_device_dependencies(
            "gpu0",
            4,
            indirect,
            (),
            &|_: (),
              _request: &VulkanDistributedExecutionRequest|
             -> ((), Result<u64, String>) {
                ((), Ok(0))
            },
        )
        .0
        .unwrap_err();
    assert!(unrecorded.message().contains("\"gpu0\""));
    let waited = RefCell::new(Vec::new());
    let failed = runners
        .submit_dispatch_with_device_dependencies(
            "gpu0",
            4,
            submission(1),
            (),
            &|_: (), request: &VulkanDistributedExecutionRequest| -> ((), Result<u64, String>) {
                let reply = match request {
                    VulkanDistributedExecutionRequest::Submit { device_id, .. }
                        if device_id == "gpu1" =>
                    {
                        Err("lost".to_string())
                    }
                    VulkanDistributedExecutionRequest::Wait { device_id, sequence } => {
                        waited.borrow_mut().push((device_id.clone(), *sequence));
                        Ok(0)
                    }
                    _ => Ok(0),
                };
                ((), reply)
            },
        )
        .0
        .unwrap_err();
    assert_eq!(
        failed.message(),
        "failed to submit distributed dispatch mlp.up shard on \"gpu1\": lost"
    );
    assert_eq!(waited.into_inner(), vec![("gpu0".to_string(), 5)]);
}

fn nothing_missed(
    _: (),
    _device_id: &String,
    _gate: u64,
) -> ((), Result<Option<VulkanDistributedResidencyMiss>, String>) {
    ((), Ok(None))
}

#[test]
fn waiting_reports_the_first_failure_after_all_waits() {
    let waits = Cell::new(0);
    let failed = runners()
        .wait_dispatch(
            "gpu0",
            4,
            VulkanDistributedDispatchSequenceKind::Direct,
            (),
            &|_: (), request: &VulkanDistributedExecutionRequest| -> ((), Result<u64, String>) {
                let reply = match request {
                    VulkanDistributedExecutionRequest::Wait { sequence, .. } => {
                        waits.set(waits.get() + 1);
                        if *sequence == 5 || *sequence == 15 {
                            Err(format!("sequence {sequence}"))
                        } else {
                            Ok(0)
                        }
                    }
                    _ => Ok(0),
                };
                ((), reply)
            },
            &nothing_missed,
        )
        .0
        .unwrap_err();
    assert_eq!(waits.get(), 3);
    assert_eq!(
        failed.message(),
        "failed waiting for distributed dispatch mlp.down shard on \"gpu0\": sequence 5"
    );
}

#[test]
fn a_run_reserves_its_own_dependency_value() {
    let mut runners = runners();
    let values = RefCell::new(Vec::new());
    for _ in 0..2 {
        runners
            .run_dispatch(
                "gpu0",
                4,
                (),
                &|_: (), request: &VulkanDistributedExecutionRequest| -> ((), Result<u64, String>) {
                    if let VulkanDistributedExecutionRequest::Submit { signal_points, .. } = request {
                        for point in signal_points {
                            values.borrow_mut().push(point.value);
                        }
                    }
                    ((), Ok(0))
                },
                &nothing_missed,
            )
            .0
            .unwrap();
    }
    assert_eq!(values.into_inner(), vec![1, 2]);
    assert_eq!(runners.reserve_dependency_value("gpu0", 4).unwrap(), 3);
    runners.advance_replayed_dependency_values(10).unwrap();
    assert_eq!(runners.reserve_dependency_value("gpu0", 4).unwrap(), 14);
    assert!(runners.reserve_dependency_value("gpu0", 7).is_err());
    let ready = runners.owner_ready_signal_points("gpu0", 4, 6).unwrap();
    assert_eq!((ready[0].semaphore.semaphore_handle, ready[0].value), (11, 6));
    let done = runners.owner_completion_wait_points("gpu0", 4, 6).unwrap();
    assert_eq!((done[0].semaphore.semaphore_handle, done[0].value), (14, 6));
    assert_eq!(runners.replay_timeline_points().len(), 4);
}

#[test]
fn every_replayed_timeline_is_captured_in_turn() {
    let runners = runners();
    let captured = RefCell::new(Vec::new());
    runners
        .capture_replay_timeline_state(
            (),
            &|_: (), semaphore: &VulkanTimelineSemaphore, value: u64| -> ((), Result<(), String>) {
                captured.borrow_mut().push((semaphore.semaphore_handle, value));
                ((), Ok(()))
            },
        )
        .0
        .unwrap();
    let expected = runners
        .replay_timeline_points()
        .iter()
        .map(|point| (point.semaphore.semaphore_handle, point.value))
        .collect::<Vec<_>>();
    assert_eq!(expected.len(), 4);
    assert_eq!(captured.into_inner(), expected);
    let failed = runners
        .capture_replay_timeline_state(
            (),
            &|_: (),
              _semaphore: &VulkanTimelineSemaphore,
              _value: u64|
             -> ((), Result<(), String>) {
                ((), Err("stopped".to_string()))
            },
        )
        .0
        .unwrap_err();
    assert_eq!(failed.0, "stopped");
}

#[test]
fn lost_devices_leave_nothing_submitted() {
    let (outcome, asked) = runners().submit_dispatch_with_device_dependencies(
        "gpu0",
        4,
        submission(1),
        Vec::new(),
        &|mut asked: Vec<VulkanDistributedExecutionRequest>,
          request: &VulkanDistributedExecutionRequest| {
            asked.push(request.clone());
            let lost = asked.len() == 2;
            (asked, if lost { Err("lost".to_string()) } else { Ok(0) })
        },
    );
    assert!(outcome.is_err());
    assert_eq!(
        asked,
        vec![
            VulkanDistributedExecutionRequest::ResolveDevice {
                device_id: "gpu0".to_string(),
            },
            VulkanDistributedExecutionRequest::ResolveDevice {
                device_id: "gpu1".to_string(),
            },
        ]
    );
}

#[test]
fn one_buffer_is_shared_with_its_devices() {
    let shared = allocate_distributed_shared_buffer(
        VulkanSharingTarget::Activation { index: 0 },
        &"gpu0".to_string(),
        &names(&["gpu0", "gpu1"]),
        32,
        VulkanSharedResidentBufferRoute::ExternalDeviceLocal,
        "activation",
        (),
        &share,
    )
    .0
    .unwrap();
    assert_eq!(shared.route, VulkanSharedResidentBufferRoute::ExternalDeviceLocal);
    assert_eq!(shared.device_buffers.get(&"gpu0".to_string()).unwrap().handle, 1320);
    assert_eq!(shared.device_buffers.get(&"gpu1".to_string()).unwrap().handle, 1321);
    assert!(shared.device_buffers.get(&"gpu2".to_string()).is_none());
}

#[test]
fn resident_misses_are_loaded_and_run_again() {
    let mut runners = runners();
    runners.dispatches[0].shards[1].selected_resource_gates = vec![vec![50], vec![]];
    assert!(runners.requires_residency_checkpoint("gpu0", 4));
    assert_eq!(runners.feedback_dispatch_count().unwrap(), 5);
    let asked = RefCell::new(Vec::new());
    let missed = |_: (), _device_id: &String, gate: u64| {
        let miss = VulkanDistributedResidencyMiss {
            selector_id: format!("selector-{gate}"),
            checkpoint_tag: 1,
            resource_indices: vec![3, 8],
        };
        ((), Ok(Some(miss)))
    };
    let fault = runners
        .resolve_completed_residency_fault(
            "gpu0",
            4,
            VulkanDistributedDispatchSequenceKind::Direct,
            (),
            &|_: (), request: &VulkanDistributedExecutionRequest| -> ((), Result<u64, String>) {
                asked.borrow_mut().push(request.clone());
                ((), Ok(0))
            },
            &missed,
        )
        .0
        .unwrap()
        .unwrap();
    assert_eq!(fault.dispatch_index, 4);
    assert_eq!(
        fault.misses,
        vec![VulkanDistributedResolvedResidencyMiss {
            shard_index: 1,
            gate_index: 0,
            selector_id: "selector-50".to_string(),
            checkpoint_tag: 1,
            resource_indices: vec![3, 8],
        }]
    );
    assert_eq!(
        asked.into_inner(),
        vec![
            VulkanDistributedExecutionRequest::ResolveDevice {
                device_id: "gpu0".to_string(),
            },
            VulkanDistributedExecutionRequest::ResolveDevice {
                device_id: "gpu1".to_string(),
            },
            VulkanDistributedExecutionRequest::Run {
                device_id: "gpu1".to_string(),
                sequence: 11,
            },
            VulkanDistributedExecutionRequest::CompareEpochs {
                device_id: "gpu1".to_string(),
                gate: 50,
            },
            VulkanDistributedExecutionRequest::ResolveDevice {
                device_id: "gpu0".to_string(),
            },
            VulkanDistributedExecutionRequest::Run {
                device_id: "gpu0".to_string(),
                sequence: 15,
            },
        ]
    );
    let again = runners
        .resolve_completed_residency_fault(
            "gpu0",
            4,
            VulkanDistributedDispatchSequenceKind::Direct,
            (),
            &|_: (),
              _request: &VulkanDistributedExecutionRequest|
             -> ((), Result<u64, String>) {
                ((), Ok(1))
            },
            &missed,
        )
        .0
        .unwrap_err();
    assert_eq!(
        again.message(),
        "distributed selected-resource checkpoint on \"gpu1\" faulted again immediately after loading"
    );
    let none = runners
        .resolve_completed_residency_fault(
            "gpu0",
            4,
            VulkanDistributedDispatchSequenceKind::Direct,
            (),
            &|_: (),
              _request: &VulkanDistributedExecutionRequest|
             -> ((), Result<u64, String>) {
                ((), Ok(0))
            },
            &nothing_missed,
        )
        .0
        .unwrap();
    assert!(none.is_none());
}

#[test]
fn gates_with_news_name_their_dispatch() {
    let mut runners = runners();
    runners.dispatches[0].shards[1].selected_resource_gates = vec![vec![50], vec![]];
    let pending = runners
        .pending_residency_dispatches((), &|_: (), gate: u64| -> ((), Result<bool, String>) { ((), Ok(gate == 50)) })
        .0
        .unwrap();
    assert_eq!(pending, vec![("gpu0".to_string(), 4)]);
    let quiet = runners
        .pending_residency_dispatches((), &|_: (), _gate: u64| -> ((), Result<bool, String>) { ((), Ok(false)) })
        .0
        .unwrap();
    assert!(quiet.is_empty());
    let reset = RefCell::new(Vec::new());
    runners
        .reset_residency_predicates((), &|_: (), gate: u64| -> ((), Result<(), String>) {
            reset.borrow_mut().push(gate);
            ((), Ok(()))
        })
        .0
        .unwrap();
    assert_eq!(reset.into_inner(), vec![50]);
    assert!(runners
        .reset_residency_predicates((), &|_: (), _gate: u64| -> ((), Result<(), String>) { ((), Err("lost".to_string())) })
        .0
        .unwrap_err()
        .message()
        .contains("lost"));
}

#[test]
fn feedback_sequences_are_recorded_for_every_shard() {
    let mut runners = runners();
    let recorded = RefCell::new(Vec::new());
    runners
        .configure_feedback_indirect_dispatches(
            (),
            &|_: (), _device: &String| -> ((), Result<(), String>) { ((), Ok(())) },
            &|_: (),
              _place: VulkanDistributedStagePlace,
              _device: &String,
              handles: &Vec<u64>|
             -> ((), Result<Vec<usize>, String>) { ((), Ok((0..handles.len()).map(|place| 12 * place).collect())) },
            &|_: (),
              _place: VulkanDistributedStagePlace,
              device: &String,
              _handles: &Vec<u64>,
              steps: &Vec<VulkanDistributedFeedbackStep>|
             -> ((), Result<u64, String>) {
                recorded.borrow_mut().push((device.clone(), steps.clone()));
                ((), Ok(if device == "gpu0" { 300 } else { 301 }))
            },
        )
        .0
        .unwrap();
    let recorded = recorded.into_inner();
    assert_eq!(recorded.len(), 2);
    assert_eq!(
        recorded[1],
        (
            "gpu1".to_string(),
            vec![
                VulkanDistributedFeedbackStep::Dispatch {
                    dispatch: 0,
                    push_constants: vec![],
                    byte_offset: 0,
                    guard: None,
                },
                VulkanDistributedFeedbackStep::Dispatch {
                    dispatch: 1,
                    push_constants: vec![32, 0, 0, 0, 32, 0, 0, 0],
                    byte_offset: 12,
                    guard: None,
                },
            ]
        )
    );
    assert_eq!(runners.dispatches[0].shards[0].feedback_sequence, Some(300));
    assert_eq!(runners.dispatches[0].shards[1].feedback_sequence, Some(301));
    let mut indirect = submission(1);
    indirect.sequence_kind = VulkanDistributedDispatchSequenceKind::FeedbackIndirect;
    let run = runners
        .submit_dispatch_with_device_dependencies(
            "gpu0",
            4,
            indirect,
            (),
            &|_: (),
              _request: &VulkanDistributedExecutionRequest|
             -> ((), Result<u64, String>) {
                ((), Ok(0))
            },
        )
        .0
        .unwrap();
    assert_eq!(
        run.sequence_kind,
        VulkanDistributedDispatchSequenceKind::FeedbackIndirect
    );
}

#[test]
fn too_many_indirect_commands_are_refused() {
    let refused = runners()
        .configure_feedback_indirect_dispatches(
            (),
            &|_: (), _device: &String| -> ((), Result<(), String>) { ((), Ok(())) },
            &|_: (),
              _place: VulkanDistributedStagePlace,
              _device: &String,
              _handles: &Vec<u64>|
             -> ((), Result<Vec<usize>, String>) { ((), Ok(vec![0, 12, 24])) },
            &|_: (),
              _place: VulkanDistributedStagePlace,
              _device: &String,
              _handles: &Vec<u64>,
              _steps: &Vec<VulkanDistributedFeedbackStep>|
             -> ((), Result<u64, String>) { ((), Ok(1)) },
        )
        .0
        .unwrap_err();
    assert!(refused
        .message()
        .contains("distributed feedback indirect commands exceed recorded steps"));
}

#[test]
fn shared_predicates_have_two_views() {
    let view = |handle| VulkanResidentBuffer {
        handle,
        byte_capacity: 4,
    };
    assert_eq!(take_predicate_views(&vec![view(1), view(2)]).unwrap(), (view(1), view(2)));
    assert_eq!(
        take_predicate_views(&vec![]).unwrap_err().message(),
        "distributed shard predicate has no owner view"
    );
    assert_eq!(
        take_predicate_views(&vec![view(1)]).unwrap_err().message(),
        "distributed shard predicate has no participant view"
    );
    assert_eq!(
        take_predicate_views(&vec![view(1), view(2), view(3)]).unwrap_err().message(),
        "distributed shard predicate produced unexpected views"
    );
}

#[test]
fn recorded_sequences_name_their_own_stages() {
    let (stages, _) = list_creation_stages(&planned(), &inputs());
    let mut recorded = 0;
    for (number, stage) in stages.iter().enumerate() {
        if let VulkanDistributedDeviceRequest::RecordSequence {
            device_id,
            sequence,
            prepared,
        } = &stage.request
        {
            recorded += 1;
            assert_eq!((*sequence, *prepared), (number - 2, number - 1));
            assert_eq!(
                stages[*sequence].request,
                VulkanDistributedDeviceRequest::CreateSequence {
                    device_id: device_id.clone()
                }
            );
            assert_eq!(stages[*sequence].place, stage.place);
            match &stages[*prepared].request {
                VulkanDistributedDeviceRequest::PrepareSteps { kernels, gates, .. } => {
                    assert_eq!(*kernels, vec![number - 4, number - 3]);
                    assert!(gates.is_empty());
                }
                other => panic!("{other:?}"),
            }
        }
    }
    assert_eq!(recorded, 2);
}

#[test]
fn devices_are_told_the_stage_that_they_serve() {
    let told = RefCell::new(Vec::new());
    VulkanDistributedDispatchRunners::create(
        &planned(),
        &inputs(),
        (),
        &|_: (),
          number: usize,
          place: VulkanDistributedStagePlace,
          asked: &VulkanDistributedDeviceRequest|
         -> ((), Result<u64, String>) {
            if let VulkanDistributedDeviceRequest::CreateSequence { .. } = asked {
                told.borrow_mut().push((number, place.island, place.shard));
            }
            ((), Ok(number as u64))
        },
        &synchronize,
    )
    .0
    .unwrap();
    assert_eq!(told.into_inner(), vec![(4, 0, 0), (10, 0, 1)]);
}

fn arena_part(handle: u64, byte_offset: usize) -> VulkanArenaAllocation {
    VulkanArenaAllocation {
        buffer: VulkanResidentBuffer {
            handle,
            byte_capacity: 1 << 16,
        },
        byte_offset,
    }
}

#[test]
fn given_parts_become_the_buffers_of_their_allocations() {
    let plan = parameter_plan();
    let buffers = take_given_buffers(
        &plan,
        &vec![
            vec![arena_part(1, 0), arena_part(1, 512)],
            vec![arena_part(2, 0), arena_part(2, 512)],
        ],
    )
    .unwrap();
    let placed = buffers
        .iter()
        .map(|buffer| (buffer.buffer.handle, buffer.byte_offset))
        .collect::<Vec<_>>();
    assert_eq!(placed, vec![(1, 0), (1, 512), (2, 0), (2, 512)]);
    let missing =
        take_given_buffers(&plan, &vec![vec![arena_part(1, 0)], vec![arena_part(2, 0)]])
            .unwrap_err();
    assert_eq!(
        missing.message(),
        "distributed parameter arena did not allocate plan index 1"
    );
}

#[test]
fn pooled_parts_are_told_apart_from_new_ones() {
    let plan = parameter_plan();
    let found = vec![Some(arena_part(9, 0)), None, Some(arena_part(9, 64)), None];
    let (buffers, fresh) = take_pooled_buffers(
        &plan,
        &found,
        &vec![vec![arena_part(1, 0)], vec![arena_part(2, 0)]],
    )
    .unwrap();
    let handles = buffers.iter().map(|buffer| buffer.buffer.handle).collect::<Vec<_>>();
    assert_eq!(handles, vec![9, 1, 9, 2]);
    assert_eq!(fresh, vec![1, 3]);
    let missing =
        take_pooled_buffers(&plan, &found, &vec![vec![arena_part(1, 0)], vec![]]).unwrap_err();
    assert_eq!(
        missing.message(),
        "pooled distributed parameter arena did not allocate plan index 3"
    );
}

#[test]
fn loads_are_reported_from_what_was_read() {
    let plan = parameter_plan();
    let reads = plan
        .load_schedule()
        .iter()
        .map(|load| read_of(&load.tensor, &load.storage_ranges()))
        .collect::<Vec<_>>();
    let report = plan.report_load(&reads).unwrap();
    assert_eq!(report.total_bytes_read, 3072);
    assert_eq!(report.write_count, 4);
    let mut endless = reads;
    endless[1].byte_count = usize::MAX;
    assert_eq!(
        plan.report_load(&endless).unwrap_err().message(),
        "distributed parameter read byte count overflowed"
    );
}

fn pool_outcome(
    plan: &VulkanDistributedParameterAllocationPlan,
    kept: bool,
    batch: Result<(), String>,
    written: Result<(), String>,
    taken: Result<(), String>,
) -> (Result<usize, String>, usize) {
    let published = Cell::new(0);
    let outcome = VulkanDistributedParameterBuffers::allocate_and_load_from_pool(
        plan,
        &tensors(),
        (),
        &|_: (),
          _key: &VulkanResidentBufferPoolKey|
         -> ((), Result<Option<VulkanArenaAllocation>, String>) { ((), Ok(if kept { Some(arena_part(9, 0)) } else {
            None }))
        },
        &|_: (),
          keys: &Vec<VulkanResidentBufferPoolKey>|
         -> ((), Result<Vec<VulkanArenaAllocation>, String>) {
            let reply = match &batch {
                Ok(_) => Ok(keys.iter().map(|_| arena_part(1, 0)).collect()),
                Err(text) => Err(text.clone()),
            };
            ((), reply)
        },
        &read,
        &|_: (),
          _target: &VulkanResidentBuffer,
          _offset: usize,
          _bytes: &Vec<u8>|
         -> ((), Result<(), String>) {
            ((), written.clone())
        },
        &|_: (), _batch: &Vec<VulkanResidentBufferPoolAllocation>| -> ((), Result<(), String>) {
            published.set(published.get() + 1);
            ((), taken.clone())
        },
    )
    .0
    .map(|buffers| buffers.buffers.len())
    .map_err(|error| error.message());
    (outcome, published.get())
}

#[test]
fn every_failure_of_a_pool_has_its_own_cause() {
    let plan = parameter_plan();
    let failed = |text: &str| -> Result<(), String> { Err(text.to_string()) };
    assert_eq!(
        pool_outcome(&plan, false, failed("full"), Ok(()), Ok(())),
        (Err("full".to_string()), 0)
    );
    assert_eq!(
        pool_outcome(&plan, false, Ok(()), failed("lost"), Ok(())),
        (Err("lost".to_string()), 0)
    );
    assert_eq!(
        pool_outcome(&plan, false, Ok(()), Ok(()), failed("refused")),
        (Err("refused".to_string()), 1)
    );
    assert_eq!(
        pool_outcome(&plan, true, failed("full"), failed("lost"), failed("refused")),
        (Ok(4), 0)
    );
    assert_eq!(
        pool_outcome(
            &allocation_plan(Vec::new()),
            false,
            failed("full"),
            failed("lost"),
            failed("refused")
        ),
        (Ok(0), 0)
    );
}

#[test]
fn alternatives_merge_in_any_order_and_stay_merged() {
    let first = activation_plan();
    let mut second = activation_plan();
    second.allocations[1].device_ids = names(&["gpu0", "gpu1"]);
    second.reduction_allocations[0].plane_byte_capacity = 64;
    second.reduction_allocations[0].byte_capacity = 128;
    let merge = VulkanDistributedActivationBufferPlan::merged_for_alternatives;
    let merged = merge(&[first.clone(), second.clone()]).unwrap();
    assert_eq!(merge(&[second, first]).unwrap(), merged);
    assert_eq!(merge(&[merged.clone()]).unwrap(), merged);
}

#[test]
fn samples_match_their_source() {
    let plan = planned();
    let devices = names(&["gpu5", "gpu6"]);
    let sample = plan.sampled_for_parameter_budget(&tensors(), &devices, 1536).unwrap().unwrap();
    assert_eq!(sample.device_ids, devices);
    assert_eq!(sample.dispatches.len(), plan.dispatches.len());
    for (sampled, source) in sample.dispatches.iter().zip(&plan.dispatches) {
        assert_eq!(sampled.node_id, source.node_id);
        assert_eq!(sampled.owner_device_id, "gpu5");
        assert_eq!(sampled.shards.len(), 2);
        for (place, shard) in sampled.shards.iter().enumerate() {
            assert_eq!(shard.device_id, devices[place]);
            assert_eq!(shard.row_start, source.shards[place].row_start);
            assert!(shard.row_count <= source.shards[place].row_count);
        }
    }
}
