//! Laws of the clocks of runners and of the semaphores that a replay captures.
use vstd::prelude::*;

use crate::dispatch_runners::{
    advance_fault_from, advanced, all_synchronization_points, replay_points,
    VulkanDistributedDispatchRunnerModel,
};
use crate::queue_dependencies::{
    VulkanDistributedQueueSynchronizationModel, VulkanTimelineSemaphore,
    VulkanTimelineSemaphorePoint,
};

verus! {

/// A semaphore is one of those that two devices synchronize with.
pub open spec fn is_semaphore_of(
    semaphore: VulkanTimelineSemaphore,
    synchronization: VulkanDistributedQueueSynchronizationModel,
) -> bool {
    ||| semaphore == synchronization.ready_source
    ||| semaphore == synchronization.ready_wait
    ||| semaphore == synchronization.done_source
    ||| semaphore == synchronization.done_wait
}

/// A semaphore is one of those that a runner synchronizes with its helpers by.
pub open spec fn synchronizes(
    synchronizations: Seq<VulkanDistributedQueueSynchronizationModel>,
    semaphore: VulkanTimelineSemaphore,
) -> bool {
    exists|helper: int|
        0 <= helper < synchronizations.len() && is_semaphore_of(
            semaphore,
            #[trigger] synchronizations[helper],
        )
}

/// A point is of a semaphore of some runner at the time of its clock.
pub open spec fn is_point_of(
    runners: Seq<VulkanDistributedDispatchRunnerModel>,
    point: VulkanTimelineSemaphorePoint,
) -> bool {
    exists|r: int|
        0 <= r < runners.len() && point.value == (#[trigger] runners[r]).dependency_clock
            && synchronizes(runners[r].helper_synchronization, point.semaphore)
}

proof fn lemma_points_of_helpers(
    synchronizations: Seq<VulkanDistributedQueueSynchronizationModel>,
    value: u64,
    point: VulkanTimelineSemaphorePoint,
)
    ensures
        all_synchronization_points(synchronizations, value).contains(point) <==> point.value
            == value && synchronizes(synchronizations, point.semaphore),
    decreases synchronizations.len(),
{
    if synchronizations.len() > 0 {
        let rest = synchronizations.drop_last();
        let last = synchronizations.last();
        let before = all_synchronization_points(rest, value);
        let all = all_synchronization_points(synchronizations, value);
        let here = crate::dispatch_runners::synchronization_points(last, value);
        lemma_points_of_helpers(rest, value, point);
        assert(all =~= before + here);
        assert(here[0].semaphore == last.ready_source);
        assert(here[1].semaphore == last.ready_wait);
        assert(here[2].semaphore == last.done_source);
        assert(here[3].semaphore == last.done_wait);
        if all.contains(point) {
            let k = choose|k: int| 0 <= k < all.len() && all[k] == point;
            if k < before.len() {
                assert(before[k] == point);
                let helper = choose|helper: int|
                    0 <= helper < rest.len() && is_semaphore_of(
                        point.semaphore,
                        #[trigger] rest[helper],
                    );
                assert(synchronizations[helper] == rest[helper]);
            } else {
                assert(here[k - before.len()] == point);
                assert(is_semaphore_of(
                    point.semaphore,
                    synchronizations[synchronizations.len() - 1],
                ));
            }
        }
        if point.value == value && synchronizes(synchronizations, point.semaphore) {
            let helper = choose|helper: int|
                0 <= helper < synchronizations.len() && is_semaphore_of(
                    point.semaphore,
                    #[trigger] synchronizations[helper],
                );
            if helper < rest.len() {
                assert(is_semaphore_of(point.semaphore, rest[helper]));
                let k = choose|k: int| 0 <= k < before.len() && before[k] == point;
                assert(all[k] == point);
            } else {
                let start = before.len() as int;
                assert(all[start] == here[0] && all[start + 1] == here[1] && all[start + 2]
                    == here[2] && all[start + 3] == here[3]);
            }
        }
    }
}

/// A replay captures the semaphores by which runners and their helpers synchronize, both
/// ends of both directions, each at the clock of its runner: all of them, and no other.
pub proof fn law_replays_capture_every_semaphore(
    runners: Seq<VulkanDistributedDispatchRunnerModel>,
    point: VulkanTimelineSemaphorePoint,
)
    ensures
        replay_points(runners).contains(point) <==> is_point_of(runners, point),
    decreases runners.len(),
{
    if runners.len() > 0 {
        let rest = runners.drop_last();
        let last = runners.last();
        let before = replay_points(rest);
        let here = all_synchronization_points(last.helper_synchronization, last.dependency_clock);
        let all = replay_points(runners);
        law_replays_capture_every_semaphore(rest, point);
        lemma_points_of_helpers(last.helper_synchronization, last.dependency_clock, point);
        assert(all =~= before + here);
        if all.contains(point) {
            let k = choose|k: int| 0 <= k < all.len() && all[k] == point;
            if k < before.len() {
                assert(before[k] == point);
                let r = choose|r: int|
                    0 <= r < rest.len() && point.value == (#[trigger] rest[r]).dependency_clock
                        && synchronizes(rest[r].helper_synchronization, point.semaphore);
                assert(runners[r] == rest[r]);
            } else {
                assert(here[k - before.len()] == point);
                assert(runners[runners.len() - 1] == last);
            }
        }
        if is_point_of(runners, point) {
            let r = choose|r: int|
                0 <= r < runners.len() && point.value == (#[trigger] runners[r]).dependency_clock
                    && synchronizes(runners[r].helper_synchronization, point.semaphore);
            if r < rest.len() {
                assert(rest[r] == runners[r]);
                let k = choose|k: int| 0 <= k < before.len() && before[k] == point;
                assert(all[k] == point);
            } else {
                let k = choose|k: int| 0 <= k < here.len() && here[k] == point;
                assert(all[before.len() + k] == point);
            }
        }
    }
}

proof fn lemma_advance(
    runners: Seq<VulkanDistributedDispatchRunnerModel>,
    count: u64,
    index: nat,
)
    requires
        index <= runners.len(),
    ensures
        advance_fault_from(runners, count, index) is None <==> forall|r: int|
            index <= r < runners.len() ==> (#[trigger] runners[r]).dependency_clock + count
                <= u64::MAX,
    decreases runners.len() - index,
{
    if index < runners.len() {
        lemma_advance(runners, count, index + 1);
        if advance_fault_from(runners, count, index) is None {
            assert forall|r: int| index <= r < runners.len() implies (
            #[trigger] runners[r]).dependency_clock + count <= u64::MAX by {}
        } else if advance_fault_from(runners, count, index + 1) is None {
            assert(runners[index as int].dependency_clock + count > u64::MAX);
        }
    }
}

/// Runners advance exactly where the clock of each has as many values left. Then every
/// clock goes on by that many and nothing else changes, so that two advances are one by
/// their sum.
pub proof fn law_runners_advance_together(
    runners: Seq<VulkanDistributedDispatchRunnerModel>,
    count: u64,
    more: u64,
)
    ensures
        advance_fault_from(runners, count, 0) is None <==> forall|r: int|
            0 <= r < runners.len() ==> (#[trigger] runners[r]).dependency_clock + count
                <= u64::MAX,
        advanced(runners, count).len() == runners.len(),
        advance_fault_from(runners, count, 0) is None ==> forall|r: int|
            #![trigger advanced(runners, count)[r]]
            0 <= r < runners.len() ==> {
                let before = runners[r];
                let after = advanced(runners, count)[r];
                &&& after.dependency_clock == before.dependency_clock + count
                &&& after == (VulkanDistributedDispatchRunnerModel {
                    dependency_clock: after.dependency_clock,
                    ..before
                })
            },
        advance_fault_from(runners, count, 0) is None && advance_fault_from(
            advanced(runners, count),
            more,
            0,
        ) is None && count + more <= u64::MAX ==> advanced(advanced(runners, count), more)
            == advanced(runners, (count + more) as u64),
{
    lemma_advance(runners, count, 0);
    let once = advanced(runners, count);
    lemma_advance(once, more, 0);
    if advance_fault_from(runners, count, 0) is None && advance_fault_from(once, more, 0) is None
        && count + more <= u64::MAX {
        let twice = advanced(once, more);
        let both = advanced(runners, (count + more) as u64);
        assert forall|r: int| 0 <= r < runners.len() implies twice[r] == both[r] by {
            assert(runners[r].dependency_clock + count <= u64::MAX);
            assert(once[r].dependency_clock + more <= u64::MAX);
        }
        assert(twice =~= both);
    }
}

} // verus!
