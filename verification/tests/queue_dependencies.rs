use vulkan_distributed::errors::{
    VulkanDistributedDispatchRunnerError, VulkanDistributedParameterBufferError, VulkanError,
};
use vulkan_distributed::queue_dependencies::{
    VulkanDistributedDependencyClock, VulkanDistributedQueueSynchronization,
    VulkanTimelineSemaphore,
};

fn semaphore(device_handle: u64, semaphore_handle: u64) -> VulkanTimelineSemaphore {
    VulkanTimelineSemaphore {
        device_handle,
        semaphore_handle,
    }
}

fn handle_of(device: &String) -> u64 {
    if device == "gpu0" {
        1
    } else {
        2
    }
}

fn create_exportable(
    mut log: Vec<String>,
    device: &String,
    initial_value: u64,
) -> (Vec<String>, Result<VulkanTimelineSemaphore, String>) {
    log.push(format!("export {device} {initial_value}"));
    (log, Ok(semaphore(handle_of(device), 10 + handle_of(device))))
}

fn create(
    mut log: Vec<String>,
    device: &String,
    initial_value: u64,
) -> (Vec<String>, Result<VulkanTimelineSemaphore, String>) {
    log.push(format!("create {device} {initial_value}"));
    (log, Ok(semaphore(handle_of(device), 20 + handle_of(device))))
}

fn import(
    mut log: Vec<String>,
    waiting: &String,
    wait: &VulkanTimelineSemaphore,
    _source_device: &String,
    source: &VulkanTimelineSemaphore,
) -> (Vec<String>, Result<(), String>) {
    log.push(format!(
        "import {waiting} {} {}",
        wait.semaphore_handle, source.semaphore_handle
    ));
    (log, Ok(()))
}

#[test]
fn both_directions_of_a_queue_dependency_are_connected() {
    let owner = "gpu0".to_string();
    let helper = "gpu1".to_string();
    let (outcome, log) = VulkanDistributedQueueSynchronization::new(
        true,
        true,
        &owner,
        &helper,
        "label",
        Vec::new(),
        &create_exportable,
        &create,
        &import,
    );
    assert_eq!(
        log,
        vec![
            "export gpu0 0",
            "create gpu1 0",
            "import gpu1 22 11",
            "export gpu1 0",
            "create gpu0 0",
            "import gpu0 21 12",
        ]
    );
    let synchronization = outcome.unwrap();
    assert_eq!(synchronization.device_id, "gpu1");
    assert_eq!(synchronization.owner_ready(7).semaphore, semaphore(1, 11));
    assert_eq!(synchronization.helper_ready(7).semaphore, semaphore(2, 22));
    assert_eq!(synchronization.helper_done(7).semaphore, semaphore(2, 12));
    assert_eq!(synchronization.owner_done(7).semaphore, semaphore(1, 21));
    assert_eq!(synchronization.owner_done(7).value, 7);
}

#[test]
fn queue_dependencies_need_semaphores_that_outlive_a_submission() {
    let owner = "gpu0".to_string();
    let helper = "gpu\"1".to_string();
    let (refused, log) = VulkanDistributedQueueSynchronization::new(
        true,
        false,
        &owner,
        &helper,
        "dispatch",
        Vec::new(),
        &create_exportable,
        &create,
        &import,
    );
    assert!(log.is_empty());
    assert_eq!(
        refused.unwrap_err().message(),
        "dispatch requires persistent opaque-file timeline semaphores on owner \"gpu0\" and helper \"gpu\\\"1\"",
    );
}

#[test]
fn a_failed_connection_is_handed_on() {
    let owner = "gpu0".to_string();
    let helper = "gpu1".to_string();
    let (failed, log) = VulkanDistributedQueueSynchronization::new(
        true,
        true,
        &owner,
        &helper,
        "dispatch",
        Vec::new(),
        &create_exportable,
        &|log: Vec<String>, device: &String, _initial_value: u64| {
            (log, Err(format!("{device} is lost")))
        },
        &import,
    );
    assert_eq!(log, vec!["export gpu0 0"]);
    assert_eq!(failed.unwrap_err().message(), "gpu1 is lost");
}

#[test]
fn reserved_values_increase_by_one() {
    let mut clock = VulkanDistributedDependencyClock::new();
    assert_eq!(clock.reserve("gpu0", 3).unwrap(), 1);
    assert_eq!(clock.reserve("gpu0", 3).unwrap(), 2);
    clock.validate_advance(5, "gpu0", 3).unwrap();
    clock.advance(5);
    assert_eq!(clock.next_value(), 8);
}

#[test]
fn an_exhausted_clock_reserves_nothing() {
    let mut clock = VulkanDistributedDependencyClock::new();
    clock.advance(u64::MAX - 1);
    assert_eq!(clock.next_value(), u64::MAX);
    assert_eq!(
        clock.reserve("gpu0", 3).unwrap_err().message(),
        "distributed dispatch 3 owned by \"gpu0\" exhausted its timeline semaphore values",
    );
    assert_eq!(
        clock.validate_advance(1, "gpu0", 3).unwrap_err().message(),
        "distributed dispatch 3 owned by \"gpu0\" exhausts its timeline semaphore values during replay",
    );
    assert_eq!(clock.next_value(), u64::MAX);
}

#[test]
fn device_errors_keep_their_text() {
    let runner = VulkanDistributedDispatchRunnerError::from(VulkanError("lost".to_string()));
    assert_eq!(runner.message(), "lost");
    let parameter = VulkanDistributedParameterBufferError::from(VulkanError("lost".to_string()));
    assert_eq!(parameter.message(), "lost");
}
