//! What kind of parallel work an island does.
use vstd::prelude::*;

use crate::contracts::ExecutionStrategy;
use crate::execution_plans::{
    VulkanDistributedDispatchPlan, VulkanDistributedDispatchPlanModel,
    VulkanPhysicalExecutionIslandPlan,
};

verus! {

/// The parallel work that an island does.
#[derive(Clone, Copy, Debug, PartialEq, Eq, Structural)]
pub enum VulkanPhysicalExecutionIslandKind {
    TensorParallel,
    WholeExpertParallel,
    IntraExpertTensorParallel,
    Hybrid,
}

/// Some dispatch follows the strategy.
pub open spec fn follows_strategy(
    dispatches: Seq<VulkanDistributedDispatchPlanModel>,
    strategy: ExecutionStrategy,
) -> bool {
    exists|i: int|
        0 <= i < dispatches.len() && (#[trigger] dispatches[i]).execution_strategy == strategy
}

/// The parallel work of dispatches: of the one parallel strategy that they follow,
/// or of several.
pub open spec fn island_kind(dispatches: Seq<VulkanDistributedDispatchPlanModel>) -> Option<
    VulkanPhysicalExecutionIslandKind,
> {
    let tensor = follows_strategy(dispatches, ExecutionStrategy::TensorParallel);
    let whole = follows_strategy(dispatches, ExecutionStrategy::ExpertParallel);
    let intra = follows_strategy(dispatches, ExecutionStrategy::TensorParallelExpert);
    if tensor && !whole && !intra {
        Some(VulkanPhysicalExecutionIslandKind::TensorParallel)
    } else if !tensor && whole && !intra {
        Some(VulkanPhysicalExecutionIslandKind::WholeExpertParallel)
    } else if !tensor && !whole && intra {
        Some(VulkanPhysicalExecutionIslandKind::IntraExpertTensorParallel)
    } else if !tensor && !whole && !intra {
        None
    } else {
        Some(VulkanPhysicalExecutionIslandKind::Hybrid)
    }
}

fn any_follows(
    dispatches: &Vec<VulkanDistributedDispatchPlan>,
    strategy: ExecutionStrategy,
) -> (result: bool)
    ensures
        result == follows_strategy(dispatches.deep_view(), strategy),
{
    let ghost all = dispatches.deep_view();
    for index in 0..dispatches.len()
        invariant
            all == dispatches.deep_view(),
            forall|i: int| 0 <= i < index ==> (#[trigger] all[i]).execution_strategy != strategy,
    {
        assert(all[index as int] == dispatches@[index as int].deep_view());
        if dispatches[index].execution_strategy == strategy {
            return true;
        }
    }
    false
}

/// Finds the parallel work that an island does.
pub fn physical_execution_island_kind(island: &VulkanPhysicalExecutionIslandPlan) -> (kind: Option<
    VulkanPhysicalExecutionIslandKind,
>)
    ensures
        kind == island_kind(island.deep_view().dispatches),
{
    let saw_tensor_parallel: bool = any_follows(
        &island.dispatches,
        ExecutionStrategy::TensorParallel,
    );
    let saw_whole_expert: bool = any_follows(&island.dispatches, ExecutionStrategy::ExpertParallel);
    let saw_intra_expert: bool = any_follows(
        &island.dispatches,
        ExecutionStrategy::TensorParallelExpert,
    );
    match (saw_tensor_parallel, saw_whole_expert, saw_intra_expert) {
        (true, false, false) => Some(VulkanPhysicalExecutionIslandKind::TensorParallel),
        (false, true, false) => Some(VulkanPhysicalExecutionIslandKind::WholeExpertParallel),
        (false, false, true) => Some(VulkanPhysicalExecutionIslandKind::IntraExpertTensorParallel),
        (false, false, false) => None,
        _ => Some(VulkanPhysicalExecutionIslandKind::Hybrid),
    }
}

/// What is recorded when an island is submitted: the kind of its work and the number
/// of its shards; nothing where it does no parallel work.
pub fn physical_execution_island_submission(island: &VulkanPhysicalExecutionIslandPlan) -> (record:
    Option<(VulkanPhysicalExecutionIslandKind, usize)>)
    ensures
        match island_kind(island.deep_view().dispatches) {
            Some(kind) => record == Some((kind, island.dispatches@[0].shards@.len() as usize)),
            None => record is None,
        },
{
    match physical_execution_island_kind(island) {
        Some(kind) => {
            assert(island.deep_view().dispatches.len() == island.dispatches.len());
            Some((kind, island.leader().shards.len()))
        },
        None => None,
    }
}

} // verus!
