use vulkan_distributed::contract_selection::resolved_owner_residency_requirements;
use vulkan_distributed::contracts::{
    ArtifactRole, ContractArtifact, ContractInput, ContractOutput, ExecutionForm, ExecutionPhase,
    ExecutionShape, ExecutionStrategy, InputDistribution, OutputCollection, PartitionExtent,
    PartitionLaunch, PartitionOrigin, PhysicalExecutionContract, ResourceKind,
    SelectedResourcePartition, VulkanDistributedEquivalenceKind, VulkanDistributedEquivalencePlan,
    WorkgroupXMapping,
};
use vulkan_distributed::execution_plans::{
    VulkanDistributedDispatchDistribution, VulkanDistributedExecutionPlan,
    VulkanDistributedExecutionPlanSet, VulkanPhysicalExecutionResidencyKind,
};
use vulkan_distributed::ordered::OrderedMap;
use vulkan_distributed::prepared::{
    CompiledAtomicGroup, CompiledResource, CompiledResourceBinding, CompiledResourceBindingMapping,
    CompiledResourceLifetime, CompiledResourceResidencyContract, CompiledResourceSelector,
    CompiledResourceSelectorMapping, CompiledSourceByteCount, TensorIndex,
    VulkanDescriptorResourceAddress, VulkanKernelDescriptorUsage, VulkanKernelScalarBinding,
    VulkanKernelScalarSource, VulkanPhysicalKernelArtifact, VulkanPhysicalKernelArtifactManifest,
    VulkanPreparedDescriptor, VulkanPreparedDispatch, VulkanPreparedDispatchPlan,
};
use vulkan_distributed::selected_resources::resolve_selected_resource_partitions;

fn residency() -> CompiledResourceResidencyContract {
    let mut contract = CompiledResourceResidencyContract {
        atomic_groups: Vec::new(),
        resources: Vec::new(),
        selectors: vec![CompiledResourceSelector {
            id: "selector".to_string(),
            execution_scope: "target".to_string(),
            component_id: "moe".to_string(),
            node_id: "router".to_string(),
            domain_id: "experts".to_string(),
            selection_signal: "routes".to_string(),
            resource_count: 4,
            selection_count_per_activation: 2,
            mapping: CompiledResourceSelectorMapping::GroupTable {
                atomic_group_ids: (0..4).map(|expert| format!("expert-{expert}")).collect(),
            },
        }],
        bindings: Vec::new(),
    };
    for expert in 0..4 {
        contract.atomic_groups.push(CompiledAtomicGroup {
            id: format!("expert-{expert}"),
            lifetime: CompiledResourceLifetime::Dynamic,
            resource_ids: (0..2).map(|slot| format!("resource-{expert}-{slot}")).collect(),
        });
        for slot in 0..2 {
            contract.resources.push(CompiledResource {
                id: format!("resource-{expert}-{slot}"),
                source_byte_count: CompiledSourceByteCount::Known {
                    byte_count: 100 * (slot + 1) + expert,
                },
            });
            contract.bindings.push(CompiledResourceBinding {
                execution_scope: "target".to_string(),
                component_id: "moe".to_string(),
                node_id: "experts".to_string(),
                mapping: CompiledResourceBindingMapping::SelectedAtomicGroup {
                    atomic_group_id: format!("expert-{expert}"),
                    resource_id: format!("resource-{expert}-{slot}"),
                    selection_signal: "routes".to_string(),
                    selector_index: expert,
                    parameter_slot: slot,
                },
            });
        }
    }
    contract
}

fn contract() -> PhysicalExecutionContract {
    let mut dimensions = OrderedMap::new();
    dimensions.insert("local_size_x".to_string(), 64);
    dimensions.insert("workgroup_count_x".to_string(), 2);
    PhysicalExecutionContract {
        contract_id: "contract".to_string(),
        implementation_digest: "digest".to_string(),
        validation_error: None,
        strategy: ExecutionStrategy::ExpertParallel,
        phases: vec![ExecutionPhase::Decode, ExecutionPhase::Prefill],
        execution_shapes: vec![ExecutionShape::SingleLane, ExecutionShape::MultiLane],
        operation_family: "experts".to_string(),
        member_node_ids: vec!["experts".to_string()],
        artifacts: vec![ContractArtifact {
            artifact_id: "kernel".to_string(),
            role: ArtifactRole::Primary,
            path: "experts.spv".to_string(),
            entry_point: "main".to_string(),
        }],
        dimensions,
        accumulation_format: "f32".to_string(),
        equivalence: VulkanDistributedEquivalencePlan {
            output: VulkanDistributedEquivalenceKind::BitExact,
            state: VulkanDistributedEquivalenceKind::BitExact,
            absolute_tolerance_bits: None,
            relative_tolerance_bits: None,
        },
        partition_extent: Some(PartitionExtent {
            elements: 4,
            alignment_elements: 1,
        }),
        partition_launch: Some(PartitionLaunch {
            origin: PartitionOrigin::PushConstantU32,
            origin_push_constant: Some("start".to_string()),
            workgroup_x: WorkgroupXMapping::Repeated,
            count_push_constant: Some("count".to_string()),
        }),
        execution_form: ExecutionForm::WholeExpertOwnership,
        inputs: vec![ContractInput {
            binding: 0,
            distribution: InputDistribution::Routed,
        }],
        outputs: vec![ContractOutput {
            binding: 1,
            collection: OutputCollection::Routed,
            reduction: None,
        }],
        parameter_partitions: Vec::new(),
        selected_resource_partitions: vec![SelectedResourcePartition {
            selection_signal: "routes".to_string(),
            address_table_binding: 2,
            parameter_slots_binding: 3,
            resource_count: 4,
            parameters_per_resource: 2,
        }],
        local_intermediates: Vec::new(),
        resource_kinds: vec![ResourceKind::LazyResource],
    }
}

fn slot(signal_id: &str, slot: usize) -> VulkanDescriptorResourceAddress {
    VulkanDescriptorResourceAddress::ActivationSlot {
        component_id: "moe".to_string(),
        signal_id: signal_id.to_string(),
        slot,
        byte_capacity: 64,
        signal_byte_capacity: 64,
    }
}

fn descriptor(
    binding: usize,
    usage: VulkanKernelDescriptorUsage,
    resource: VulkanDescriptorResourceAddress,
) -> VulkanPreparedDescriptor {
    VulkanPreparedDescriptor {
        binding,
        usage,
        resource,
    }
}

fn dispatch() -> VulkanPreparedDispatch {
    VulkanPreparedDispatch {
        dispatch_index: 3,
        component_id: "moe".to_string(),
        node_id: "experts".to_string(),
        op: "experts".to_string(),
        reusable_family_id: "family".to_string(),
        descriptors: vec![
            descriptor(0, VulkanKernelDescriptorUsage::InputSignal, slot("input", 0)),
            descriptor(1, VulkanKernelDescriptorUsage::OutputSignal, slot("output", 1)),
            descriptor(
                2,
                VulkanKernelDescriptorUsage::Control,
                VulkanDescriptorResourceAddress::DynamicResourceAddressTable {
                    component_id: "moe".to_string(),
                    node_id: "experts".to_string(),
                    selection_signal: "routes".to_string(),
                },
            ),
            descriptor(
                3,
                VulkanKernelDescriptorUsage::Control,
                VulkanDescriptorResourceAddress::DynamicResourceParameterSlots {
                    component_id: "moe".to_string(),
                    node_id: "experts".to_string(),
                    selection_signal: "routes".to_string(),
                    parameter_ids: (0..8).map(|slot| format!("parameter-{slot}")).collect(),
                },
            ),
            descriptor(
                4,
                VulkanKernelDescriptorUsage::State,
                VulkanDescriptorResourceAddress::StateBuffer {
                    component_id: "moe".to_string(),
                    state_id: "cache".to_string(),
                    byte_capacity: 256,
                },
            ),
        ],
        physical_execution_contracts: vec![contract()],
    }
}

fn refusal(change: &dyn Fn(&mut CompiledResourceResidencyContract)) -> String {
    let scope = "target".to_string();
    let mut resources = residency();
    change(&mut resources);
    resolve_selected_resource_partitions(&dispatch(), &contract(), Some((&scope, &resources)))
        .unwrap_err()
        .message()
}

#[test]
fn selected_resources_are_resolved_to_their_groups() {
    let scope = "target".to_string();
    let partitions = resolve_selected_resource_partitions(
        &dispatch(),
        &contract(),
        Some((&scope, &residency())),
    )
    .unwrap();
    assert_eq!(partitions.len(), 1);
    let partition = &partitions[0];
    assert_eq!(partition.selector_id, "selector");
    assert_eq!(partition.node_id, "router");
    assert_eq!(partition.domain_id, "experts");
    assert_eq!(partition.resource_count, 4);
    assert_eq!(partition.parameters_per_resource, 2);
    assert_eq!(partition.selection_count_per_activation, 2);
    assert_eq!(partition.address_table_binding, 2);
    assert_eq!(partition.parameter_slots_binding, 3);
    assert_eq!(partition.atomic_group_ids[3], "expert-3");
    assert_eq!(partition.atomic_group_byte_counts, vec![300, 302, 304, 306]);
}

#[test]
fn selected_resources_are_refused_where_they_are_incomplete() {
    let of = |text: &str| format!("distributed dispatch moe.experts {text}");
    assert_eq!(
        resolve_selected_resource_partitions(&dispatch(), &contract(), None)
            .unwrap_err()
            .message(),
        of("contains selected resources without a compiled atomic residency contract")
    );
    assert_eq!(
        refusal(&|resources| resources.selectors.clear()),
        of("selected resource partition \"routes\" resolves 0 residency selectors")
    );
    assert_eq!(
        refusal(&|resources| resources.selectors[0].resource_count = 5),
        of("selected resource partition \"routes\" declares 4 resources but selector \"selector\" declares 5")
    );
    assert_eq!(
        refusal(&|resources| {
            resources.selectors[0].mapping = CompiledResourceSelectorMapping::Direct;
        }),
        of("selected resource partition \"routes\" requires an atomic group table")
    );
    assert_eq!(
        refusal(&|resources| {
            resources.selectors[0].mapping = CompiledResourceSelectorMapping::GroupTable {
                atomic_group_ids: vec!["expert-0".to_string()],
            };
        }),
        of("selector \"selector\" has 1 atomic groups for 4 resources")
    );
    assert_eq!(
        refusal(&|resources| {
            resources.bindings.pop();
        }),
        of("selected resource partition \"routes\" resolves 7 parameter slots, expected 8")
    );
    assert_eq!(
        refusal(&|resources| {
            let repeated = resources.bindings[0].clone();
            resources.bindings.push(repeated);
        }),
        of("selected residency repeats a selector parameter slot")
    );
    assert_eq!(
        refusal(&|resources| {
            resources.atomic_groups.remove(2);
        }),
        of("selector \"selector\" references missing atomic group \"expert-2\"")
    );
    assert_eq!(
        refusal(&|resources| {
            resources.atomic_groups[1].lifetime = CompiledResourceLifetime::Permanent;
        }),
        of("selected atomic group \"expert-1\" is not dynamic")
    );
    assert_eq!(
        refusal(&|resources| {
            resources.atomic_groups[1].resource_ids.pop();
        }),
        of("selected residency slot 1:1 escapes atomic group \"expert-1\"")
    );
    assert_eq!(
        refusal(&|resources| {
            resources.resources.remove(0);
        }),
        of("selected atomic group references missing resource \"resource-0-0\"")
    );
}

#[test]
fn state_stays_with_the_owner() {
    let requirements = resolved_owner_residency_requirements("gpu0", &dispatch()).unwrap();
    assert_eq!(requirements.len(), 1);
    assert_eq!(requirements[0].device_id, "gpu0");
    assert_eq!(
        requirements[0].kind,
        VulkanPhysicalExecutionResidencyKind::OwnerState
    );
    assert_eq!(requirements[0].byte_capacity, 256);
}

#[test]
fn experts_are_owned_by_one_device_each() {
    let owner = "gpu0".to_string();
    let plan = VulkanPreparedDispatchPlan {
        dispatches: vec![dispatch()],
    };
    let scalar = |name: &str| VulkanKernelScalarBinding {
        name: name.to_string(),
        scalar_type: "u32".to_string(),
        source: VulkanKernelScalarSource::PushConstant,
    };
    let manifest = VulkanPhysicalKernelArtifactManifest {
        artifacts: vec![VulkanPhysicalKernelArtifact {
            artifact_id: "kernel".to_string(),
            op: "experts".to_string(),
            path: "experts.spv".to_string(),
            entry_point: "main".to_string(),
            local_size_x: 64,
            workgroup_count_x: 2,
            push_constants: vec![scalar("start"), scalar("count")],
        }],
    };
    let mut pools = OrderedMap::new();
    pools.insert("moe".to_string(), vec!["gpu0".to_string(), "gpu1".to_string()]);
    let tensors = TensorIndex {
        tensors: OrderedMap::new(),
    };
    let plans = VulkanDistributedExecutionPlanSet::from_prepared_plans_with_resource_contract(
        &[(&owner, &plan)],
        &tensors,
        &manifest,
        &pools,
        &[],
        16,
        &"target".to_string(),
        &residency(),
    )
    .unwrap();
    let experts = &plans.decode.dispatches[0];
    assert_eq!(
        experts.distribution,
        VulkanDistributedDispatchDistribution::ExpertRange
    );
    assert!(experts.has_lazy_resource_requirements);
    let owned = experts
        .shards
        .iter()
        .map(|shard| shard.selected_resource_indices.get(&"selector".to_string()).unwrap().clone())
        .collect::<Vec<_>>();
    assert_eq!(owned, vec![vec![0, 1], vec![2, 3]]);
    let unresolved = VulkanDistributedExecutionPlan::from_prepared_plans(
        &[(&owner, &plan)],
        &tensors,
        &manifest,
        &pools,
        &[],
        16,
    )
    .unwrap_err();
    assert_eq!(
        unresolved.message(),
        "distributed dispatch moe.experts contains selected resources without a compiled atomic residency contract"
    );
}
