use vulkan_distributed::errors::VulkanError;
use vulkan_distributed::ordered::OrderedSet;
use vulkan_distributed::shader_contracts::{
    vulkan_spirv_requirements, VulkanShaderFeature, VulkanSubgroupOperation, SPIRV_MAGIC,
    SPIRV_OP_CAPABILITY, SPIRV_OP_MEMORY_MODEL,
};

fn spirv_test_module(capabilities: &[u32], memory_model: u32) -> Vec<u32> {
    let mut words = vec![SPIRV_MAGIC, 0x0001_0600, 0, 1, 0];
    for capability in capabilities {
        words.extend([(2u32 << 16) | u32::from(SPIRV_OP_CAPABILITY), *capability]);
    }
    words.extend([
        (3u32 << 16) | u32::from(SPIRV_OP_MEMORY_MODEL),
        0,
        memory_model,
    ]);
    words
}

fn features(expected: &[VulkanShaderFeature]) -> OrderedSet<VulkanShaderFeature> {
    let mut set = OrderedSet::new();
    for feature in expected {
        set.insert(*feature);
    }
    set
}

#[test]
fn spirv_contract_extracts_every_feature_used_by_cooperative_bfloat16() {
    let words = spirv_test_module(&[1, 9, 22, 4433, 5116, 5118, 5345, 6022], 3);

    let requirements = vulkan_spirv_requirements(&words).unwrap();

    assert_eq!(
        requirements.shader_features,
        features(&[
            VulkanShaderFeature::ShaderFloat16,
            VulkanShaderFeature::ShaderInt16,
            VulkanShaderFeature::StorageBuffer16BitAccess,
            VulkanShaderFeature::ShaderBfloat16Type,
            VulkanShaderFeature::ShaderBfloat16CooperativeMatrix,
            VulkanShaderFeature::VulkanMemoryModel,
            VulkanShaderFeature::CooperativeMatrix,
        ])
    );
}

#[test]
fn spirv_contract_extracts_native_fp8_dot_product_feature() {
    let words = spirv_test_module(&[1, 4212, 6915], 1);

    let requirements = vulkan_spirv_requirements(&words).unwrap();

    assert_eq!(
        requirements.shader_features,
        features(&[
            VulkanShaderFeature::ShaderFloat8,
            VulkanShaderFeature::ShaderMixedFloatDotProductFloat8AccFloat32,
        ])
    );
}

#[test]
fn spirv_contract_extracts_every_feature_used_by_cooperative_float8() {
    let words = spirv_test_module(&[1, 39, 4212, 4213, 4448, 5345, 6022], 3);

    let requirements = vulkan_spirv_requirements(&words).unwrap();

    assert_eq!(
        requirements.shader_features,
        features(&[
            VulkanShaderFeature::ShaderInt8,
            VulkanShaderFeature::StorageBuffer8BitAccess,
            VulkanShaderFeature::ShaderFloat8,
            VulkanShaderFeature::ShaderFloat8CooperativeMatrix,
            VulkanShaderFeature::VulkanMemoryModel,
            VulkanShaderFeature::CooperativeMatrix,
        ])
    );
}

#[test]
fn spirv_contract_extracts_native_bfloat16_mixed_dot_product_feature() {
    let words = spirv_test_module(&[1, 5116, 6914], 1);

    let requirements = vulkan_spirv_requirements(&words).unwrap();

    assert_eq!(
        requirements.shader_features,
        features(&[
            VulkanShaderFeature::ShaderBfloat16Type,
            VulkanShaderFeature::ShaderMixedFloatDotProductBfloat16Acc,
        ])
    );
}

#[test]
fn spirv_contract_extracts_native_integer_dot_product_feature() {
    let words = spirv_test_module(&[1, 39, 6018, 6019], 1);

    let requirements = vulkan_spirv_requirements(&words).unwrap();

    assert_eq!(
        requirements.shader_features,
        features(&[
            VulkanShaderFeature::ShaderInt8,
            VulkanShaderFeature::ShaderIntegerDotProduct,
        ])
    );
}

#[test]
fn spirv_contract_extracts_buffer_device_address_feature() {
    let words = spirv_test_module(&[1, 11, 5347], 1);

    let requirements = vulkan_spirv_requirements(&words).unwrap();

    assert_eq!(
        requirements.shader_features,
        features(&[
            VulkanShaderFeature::ShaderInt64,
            VulkanShaderFeature::BufferDeviceAddress,
        ])
    );
}

#[test]
fn spirv_contract_rejects_inconsistent_memory_model_declarations() {
    let vulkan_without_capability = spirv_test_module(&[1], 3);
    let capability_without_vulkan = spirv_test_module(&[1, 5345], 1);

    assert!(vulkan_spirv_requirements(&vulkan_without_capability).is_err());
    assert!(vulkan_spirv_requirements(&capability_without_vulkan).is_err());
}

#[test]
fn spirv_contract_fails_closed_for_unmodeled_capabilities() {
    let words = spirv_test_module(&[1, 65_535], 1);

    assert_eq!(
        vulkan_spirv_requirements(&words).unwrap_err(),
        VulkanError(
            "shader artifact declares SPIR-V capability 65535, but the runtime has no device contract for it"
                .to_string()
        )
    );
}

#[test]
fn spirv_contract_rejects_truncated_instructions() {
    let mut words = spirv_test_module(&[1], 1);
    words.push((4u32 << 16) | 54);

    assert!(vulkan_spirv_requirements(&words).is_err());
}

#[test]
fn subgroup_capabilities_require_their_operations() {
    let requirements = vulkan_spirv_requirements(&spirv_test_module(&[1, 61, 63], 1)).unwrap();

    assert_eq!(requirements.shader_features, features(&[]));
    let mut operations = OrderedSet::new();
    operations.insert(VulkanSubgroupOperation::Arithmetic);
    operations.insert(VulkanSubgroupOperation::Basic);
    assert_eq!(requirements.subgroup_operations, operations);
}

#[test]
fn words_without_a_header_are_no_module() {
    assert_eq!(
        vulkan_spirv_requirements(&[SPIRV_MAGIC, 0, 0, 1]).unwrap_err().message(),
        "shader artifact is not a SPIR-V module"
    );
    assert_eq!(
        vulkan_spirv_requirements(&[1, 2, 3, 4, 5]).unwrap_err().message(),
        "shader artifact is not a SPIR-V module"
    );
    assert_eq!(
        vulkan_spirv_requirements(&[SPIRV_MAGIC, 0, 0, 1, 0, 17]).unwrap_err().message(),
        "shader artifact has a truncated SPIR-V instruction"
    );
    assert_eq!(
        vulkan_spirv_requirements(&[SPIRV_MAGIC, 0, 0, 1, 0, (1 << 16) | 17])
            .unwrap_err()
            .message(),
        "shader artifact has a malformed SPIR-V capability"
    );
    assert_eq!(
        vulkan_spirv_requirements(&[SPIRV_MAGIC, 0, 0, 1, 0, (2 << 16) | 14, 0])
            .unwrap_err()
            .message(),
        "shader artifact has a malformed SPIR-V memory model"
    );
}
