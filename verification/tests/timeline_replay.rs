use vulkan_distributed::errors::VulkanError;
use vulkan_distributed::labels::semantic_label_field;
use vulkan_distributed::ordered::OrderedMap;
use vulkan_distributed::timeline_replay::{
    offset_timeline_value, validate_resident_indirect_dispatch_range,
    VulkanTimelineSemaphoreReplayIdentity, VulkanTimelineSemaphoreReplayState,
};

fn state(
    values: &[(VulkanTimelineSemaphoreReplayIdentity, u64)],
) -> VulkanTimelineSemaphoreReplayState {
    let mut next_values = OrderedMap::new();
    for (identity, value) in values {
        next_values.insert(*identity, *value);
    }
    VulkanTimelineSemaphoreReplayState { next_values }
}

#[test]
fn timeline_replay_rebases_each_logical_device_semaphore_independently() {
    let first = VulkanTimelineSemaphoreReplayIdentity {
        device_handle: 11,
        semaphore_handle: 101,
    };
    let second = VulkanTimelineSemaphoreReplayIdentity {
        device_handle: 22,
        semaphore_handle: 202,
    };
    let recorded = state(&[(first, 3), (second, 17)]);
    let current = state(&[(first, 8), (second, 29)]);
    let rebase = recorded.rebase_to(&current).unwrap();

    assert_eq!(rebase.value(11, 101, 4).unwrap(), 9);
    assert_eq!(rebase.value(22, 202, 19).unwrap(), 31);
    assert_eq!(
        rebase.value(11, 202, 4).unwrap_err().message(),
        "timeline semaphore replay has no recorded semaphore"
    );
    assert_eq!(
        rebase.value(11, 101, u64::MAX).unwrap_err().message(),
        "timeline semaphore replay value overflowed"
    );
}

#[test]
fn timeline_replay_rejects_topology_changes_and_value_regression() {
    let identity = VulkanTimelineSemaphoreReplayIdentity {
        device_handle: 11,
        semaphore_handle: 101,
    };
    let recorded = state(&[(identity, 8)]);
    assert!(
        recorded
            .rebase_to(&VulkanTimelineSemaphoreReplayState::default())
            .unwrap_err()
            .message()
            .contains("topology changed")
    );
    assert!(
        recorded
            .rebase_to(&state(&[(identity, 7)]))
            .unwrap_err()
            .message()
            .contains("regressed")
    );
}

#[test]
fn another_semaphore_is_another_topology() {
    let first = VulkanTimelineSemaphoreReplayIdentity {
        device_handle: 1,
        semaphore_handle: 1,
    };
    let second = VulkanTimelineSemaphoreReplayIdentity {
        device_handle: 1,
        semaphore_handle: 2,
    };
    assert_eq!(
        state(&[(first, 8)])
            .rebase_to(&state(&[(second, 9)]))
            .unwrap_err()
            .message(),
        "timeline semaphore replay topology changed"
    );
}

#[test]
fn indirect_dispatch_ranges_require_complete_aligned_commands() {
    assert!(validate_resident_indirect_dispatch_range(12, 0).is_ok());
    assert!(validate_resident_indirect_dispatch_range(28, 16).is_ok());

    assert_eq!(
        validate_resident_indirect_dispatch_range(16, 2).unwrap_err(),
        VulkanError("resident indirect dispatch offset 2 is not 4-byte aligned".to_string())
    );
    assert_eq!(
        validate_resident_indirect_dispatch_range(16, 8).unwrap_err(),
        VulkanError(
            "resident indirect dispatch range 8..20 exceeds buffer capacity 16".to_string()
        )
    );
    assert_eq!(
        validate_resident_indirect_dispatch_range(usize::MAX, usize::MAX - 3).unwrap_err(),
        VulkanError("resident indirect dispatch range overflowed".to_string())
    );
}

#[test]
fn timeline_replay_offsets_preserve_values_and_reject_overflow() {
    assert_eq!(offset_timeline_value(17, 64).unwrap(), 81);
    assert_eq!(offset_timeline_value(u64::MAX, 0).unwrap(), u64::MAX);
    assert!(offset_timeline_value(u64::MAX, 1).is_err());
}

#[test]
fn semantic_timestamp_labels_expose_component_and_op_fields() {
    let label = "kernel=linear_00 component=block_00 node=attn_qkv op=parallel_linear_2way lane=3";

    assert_eq!(semantic_label_field(label, "component"), Some("block_00"));
    assert_eq!(
        semantic_label_field(label, "op"),
        Some("parallel_linear_2way")
    );
    assert_eq!(semantic_label_field(label, "node"), Some("attn_qkv"));
    assert_eq!(semantic_label_field(label, "missing"), None);
}

#[test]
fn label_fields_are_whole_words() {
    assert_eq!(semantic_label_field("", "op"), None);
    assert_eq!(semantic_label_field("lop=1 op= op=2", "op"), Some(""));
    assert_eq!(semantic_label_field("op", "op"), None);
    assert_eq!(semantic_label_field("a=ü b=1 ", "a"), Some("ü"));
    assert_eq!(semantic_label_field("a=ü b=1 ", "b"), Some("1"));
}
