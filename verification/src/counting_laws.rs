//! Laws of what is counted: uses of parameters, what is loaded, and what runs on feedback.
use vstd::prelude::*;

use crate::dispatch_runners::{
    feedback_number, gate_number, VulkanDistributedDispatchRunnerModel,
    VulkanDistributedDispatchShardRunnerModel,
};
use crate::dispatch_shards::{
    VulkanDistributedDispatchShardModel, VulkanDistributedParameterFragmentModel,
};
use crate::exact_rebinding::contracts_from;
use crate::execution_plans::{
    VulkanDistributedDispatchPlanModel, VulkanDistributedExecutionPlanModel,
};
use crate::ordered::{lemma_listed_at, lemma_ordered_listing_exists, lists_key, ordered_listing};
use crate::parameter_buffers::{
    after_ranges, after_read, after_tensor, after_writes, loaded, written_ranges,
    LoadProgressModel, VulkanDistributedTensorLoadModel, VulkanDistributedTensorReadModel,
};
use crate::parameter_laws::{law_accepted_ranges_hold_every_byte_once, range_holds};
use crate::parameter_plans::{
    dispatch_use_step, execution_parameters, fragment_key, fragment_use_step, shard_use_step,
    tensor_fault, tensor_ranges, tensors_fault_from, used_allocations, AllocationKey,
    AllocationKeyModel, VulkanDistributedParameterAllocationModel,
};
use crate::prepared::TensorIndexModel;
use crate::queue_dependencies::{advance_fault, reserved};
use crate::runner_feedback::{
    all_gates, feedback_handles, pending_islands, runner_gates, shard_feedback_handles,
};
use crate::runner_recovery::flat_gates;
use crate::sequences::{fold_from, lemma_sum_step, sum_of};

verus! {

/// The fragment of a device is what an allocation holds.
pub open spec fn is_of_key(
    device_id: Seq<char>,
    fragment: VulkanDistributedParameterFragmentModel,
    key: AllocationKeyModel,
) -> bool {
    key == (device_id, (fragment.tensor, (fragment.byte_offset, fragment.byte_count)))
}

/// How often the first fragments of a shard use what an allocation holds.
pub open spec fn uses_of_shard(
    shard: VulkanDistributedDispatchShardModel,
    count: int,
    key: AllocationKeyModel,
) -> nat
    decreases count,
{
    if count <= 0 {
        0
    } else {
        uses_of_shard(shard, count - 1, key) + if is_of_key(
            shard.device_id,
            shard.parameters[count - 1],
            key,
        ) {
            1nat
        } else {
            0
        }
    }
}

/// How often the first shards of a dispatch use what an allocation holds.
pub open spec fn uses_of_dispatch(
    dispatch: VulkanDistributedDispatchPlanModel,
    count: int,
    key: AllocationKeyModel,
) -> nat
    decreases count,
{
    if count <= 0 {
        0
    } else {
        uses_of_dispatch(dispatch, count - 1, key) + uses_of_shard(
            dispatch.shards[count - 1],
            dispatch.shards[count - 1].parameters.len() as int,
            key,
        )
    }
}

/// How often the first dispatches use what an allocation holds.
pub open spec fn uses_of(
    dispatches: Seq<VulkanDistributedDispatchPlanModel>,
    count: int,
    key: AllocationKeyModel,
) -> nat
    decreases count,
{
    if count <= 0 {
        0
    } else {
        uses_of(dispatches, count - 1, key) + uses_of_dispatch(
            dispatches[count - 1],
            dispatches[count - 1].shards.len() as int,
            key,
        )
    }
}

/// The uses that are counted under a key.
pub open spec fn counted(uses: Map<AllocationKeyModel, usize>, key: AllocationKeyModel) -> nat {
    if uses.contains_key(key) {
        uses[key] as nat
    } else {
        0
    }
}

/// What a key names lies within its tensor on a device of the pool.
pub open spec fn is_within(
    tensors: TensorIndexModel,
    device_ids: Seq<Seq<char>>,
    key: AllocationKeyModel,
) -> bool {
    let tensor = key.1.0;
    let byte_offset = key.1.1.0;
    let byte_count = key.1.1.1;
    &&& device_ids.contains(key.0)
    &&& tensors.tensors.contains_key(tensor)
    &&& tensors.tensors[tensor].byte_count is Some
    &&& byte_count > 0
    &&& byte_offset + byte_count <= tensors.tensors[tensor].byte_count->0
}

proof fn lemma_fragments_counted(
    tensors: TensorIndexModel,
    device_ids: Seq<Seq<char>>,
    shard: VulkanDistributedDispatchShardModel,
    index: nat,
    uses: Map<AllocationKeyModel, usize>,
    key: AllocationKeyModel,
)
    requires
        index <= shard.parameters.len(),
        uses.dom().finite(),
        device_ids.contains(shard.device_id),
        uses.contains_key(key) ==> is_within(tensors, device_ids, key) && uses[key] > 0,
        fold_from(shard.parameters, index, uses, fragment_use_step(tensors, shard.device_id)) is Ok,
    ensures
        ({
            let all = fold_from(
                shard.parameters,
                index,
                uses,
                fragment_use_step(tensors, shard.device_id),
            )->Ok_0;
            &&& all.dom().finite()
            &&& counted(all, key) + uses_of_shard(shard, index as int, key) == counted(uses, key)
                + uses_of_shard(shard, shard.parameters.len() as int, key)
            &&& all.contains_key(key) ==> is_within(tensors, device_ids, key) && all[key] > 0
        }),
    decreases shard.parameters.len() - index,
{
    if index < shard.parameters.len() {
        let fragment = shard.parameters[index as int];
        let next = fragment_use_step(tensors, shard.device_id)(uses, fragment)->Ok_0;
        assert(fragment_key(shard.device_id, fragment) == key <==> is_of_key(
            shard.device_id,
            fragment,
            key,
        ));
        lemma_fragments_counted(tensors, device_ids, shard, index + 1, next, key);
    }
}

proof fn lemma_shards_counted(
    tensors: TensorIndexModel,
    device_ids: Seq<Seq<char>>,
    dispatch: VulkanDistributedDispatchPlanModel,
    index: nat,
    uses: Map<AllocationKeyModel, usize>,
    key: AllocationKeyModel,
)
    requires
        index <= dispatch.shards.len(),
        uses.dom().finite(),
        uses.contains_key(key) ==> is_within(tensors, device_ids, key) && uses[key] > 0,
        fold_from(dispatch.shards, index, uses, shard_use_step(tensors, device_ids, dispatch))
            is Ok,
    ensures
        ({
            let all = fold_from(
                dispatch.shards,
                index,
                uses,
                shard_use_step(tensors, device_ids, dispatch),
            )->Ok_0;
            &&& all.dom().finite()
            &&& counted(all, key) + uses_of_dispatch(dispatch, index as int, key) == counted(
                uses,
                key,
            ) + uses_of_dispatch(dispatch, dispatch.shards.len() as int, key)
            &&& all.contains_key(key) ==> is_within(tensors, device_ids, key) && all[key] > 0
        }),
    decreases dispatch.shards.len() - index,
{
    if index < dispatch.shards.len() {
        let shard = dispatch.shards[index as int];
        let next = shard_use_step(tensors, device_ids, dispatch)(uses, shard)->Ok_0;
        lemma_fragments_counted(tensors, device_ids, shard, 0, uses, key);
        lemma_shards_counted(tensors, device_ids, dispatch, index + 1, next, key);
    }
}

proof fn lemma_dispatches_counted(
    tensors: TensorIndexModel,
    device_ids: Seq<Seq<char>>,
    dispatches: Seq<VulkanDistributedDispatchPlanModel>,
    index: nat,
    uses: Map<AllocationKeyModel, usize>,
    key: AllocationKeyModel,
)
    requires
        index <= dispatches.len(),
        uses.dom().finite(),
        uses.contains_key(key) ==> is_within(tensors, device_ids, key) && uses[key] > 0,
        fold_from(dispatches, index, uses, dispatch_use_step(tensors, device_ids)) is Ok,
    ensures
        ({
            let all = fold_from(
                dispatches,
                index,
                uses,
                dispatch_use_step(tensors, device_ids),
            )->Ok_0;
            &&& all.dom().finite()
            &&& counted(all, key) + uses_of(dispatches, index as int, key) == counted(uses, key)
                + uses_of(dispatches, dispatches.len() as int, key)
            &&& all.contains_key(key) ==> is_within(tensors, device_ids, key) && all[key] > 0
        }),
    decreases dispatches.len() - index,
{
    if index < dispatches.len() {
        let dispatch = dispatches[index as int];
        let next = dispatch_use_step(tensors, device_ids)(uses, dispatch)->Ok_0;
        lemma_shards_counted(tensors, device_ids, dispatch, 0, uses, key);
        lemma_dispatches_counted(tensors, device_ids, dispatches, index + 1, next, key);
    }
}

/// What an allocation holds and where.
pub open spec fn held_by(allocation: VulkanDistributedParameterAllocationModel) -> AllocationKeyModel {
    (
        allocation.device_id,
        (allocation.tensor, (allocation.byte_offset, allocation.byte_count)),
    )
}

/// Every allocation of the parameters of a plan is used, as often as fragments of the plan
/// are the bytes that it holds on its device, and lies within its tensor on a device of the
/// plan.
pub proof fn law_parameters_count_their_uses(
    plan: VulkanDistributedExecutionPlanModel,
    tensors: TensorIndexModel,
    complete: bool,
    index: int,
)
    requires
        execution_parameters(plan, tensors, complete) is Ok,
        0 <= index < execution_parameters(plan, tensors, complete)->Ok_0.allocations.len(),
    ensures
        ({
            let parameters = execution_parameters(plan, tensors, complete)->Ok_0;
            let allocation = parameters.allocations[index];
            &&& allocation.use_count > 0
            &&& allocation.use_count == uses_of(
                plan.dispatches,
                plan.dispatches.len() as int,
                held_by(allocation),
            )
            &&& is_within(tensors, plan.device_ids, held_by(allocation))
        }),
{
    let uses = fold_from(
        plan.dispatches,
        0,
        Map::empty(),
        dispatch_use_step(tensors, plan.device_ids),
    )->Ok_0;
    let listing = ordered_listing::<AllocationKey, usize>(uses);
    let any = (Seq::<char>::empty(), (Seq::<char>::empty(), (0usize, 0usize)));
    lemma_dispatches_counted(tensors, plan.device_ids, plan.dispatches, 0, Map::empty(), any);
    lemma_ordered_listing_exists::<AllocationKey, usize>(uses);
    lemma_listed_at::<AllocationKey, usize>(listing, index);
    let allocation = used_allocations(uses)[index];
    let key = listing[index].0;
    assert(held_by(allocation) == key);
    lemma_dispatches_counted(tensors, plan.device_ids, plan.dispatches, 0, Map::empty(), key);
}

/// The writes of the first ranges of a tensor.
pub open spec fn writes_of(load: VulkanDistributedTensorLoadModel, count: int) -> nat
    decreases count,
{
    if count <= 0 {
        0
    } else {
        writes_of(load, count - 1) + load.ranges[count - 1].allocation_indices.len()
    }
}

/// The bytes that the first ranges of a tensor write.
pub open spec fn bytes_of_writes(
    load: VulkanDistributedTensorLoadModel,
    read: VulkanDistributedTensorReadModel,
    count: int,
) -> int
    decreases count,
{
    if count <= 0 {
        0
    } else {
        bytes_of_writes(load, read, count - 1) + read.payloads[count - 1].len()
            * load.ranges[count - 1].allocation_indices.len()
    }
}

proof fn lemma_writes(
    start: Result<LoadProgressModel, Seq<char>>,
    bytes: nat,
    times: nat,
)
    requires
        after_writes(start, bytes, times) is Ok,
    ensures
        start is Ok,
        ({
            let before = start->Ok_0;
            let after = after_writes(start, bytes, times)->Ok_0;
            &&& after.writes == before.writes + times
            &&& after.bytes_written == before.bytes_written + bytes * times
            &&& after.bytes_read == before.bytes_read
            &&& after.files == before.files
        }),
    decreases times,
{
    if times > 0 {
        lemma_writes(start, bytes, (times - 1) as nat);
        assert(bytes * times == bytes * (times - 1) + bytes) by (nonlinear_arith)
            requires
                times > 0,
        ;
    } else {
        assert(bytes * 0 == 0) by (nonlinear_arith);
    }
}

proof fn lemma_ranges(
    start: Result<LoadProgressModel, Seq<char>>,
    load: VulkanDistributedTensorLoadModel,
    read: VulkanDistributedTensorReadModel,
    count: nat,
)
    requires
        after_ranges(start, load, read, count) is Ok,
    ensures
        start is Ok,
        ({
            let before = start->Ok_0;
            let after = after_ranges(start, load, read, count)->Ok_0;
            &&& after.writes == before.writes + writes_of(load, count as int)
            &&& after.bytes_written == before.bytes_written + bytes_of_writes(
                load,
                read,
                count as int,
            )
            &&& after.bytes_read == before.bytes_read
            &&& after.files == before.files
        }),
    decreases count,
{
    if count > 0 {
        let less = (count - 1) as nat;
        lemma_writes(
            after_ranges(start, load, read, less),
            read.payloads[less as int].len(),
            load.ranges[less as int].allocation_indices.len(),
        );
        lemma_ranges(start, load, read, less);
    }
}

/// What is counted when one more tensor is loaded: all that was read of it, one write for
/// each allocation of each range that was read, and as many bytes as they take; and the file
/// that it was read from.
pub proof fn law_loading_counts_what_is_read_and_written(
    progress: LoadProgressModel,
    load: VulkanDistributedTensorLoadModel,
    read: VulkanDistributedTensorReadModel,
)
    requires
        after_tensor(progress, load, read) is Ok,
        read.payloads.len() == load.ranges.len(),
    ensures
        ({
            let after = after_tensor(progress, load, read)->Ok_0;
            let ranges = load.ranges.len() as int;
            &&& after.bytes_read == progress.bytes_read + read.byte_count
            &&& after.writes == progress.writes + writes_of(load, ranges)
            &&& after.bytes_written == progress.bytes_written + bytes_of_writes(
                load,
                read,
                ranges,
            )
            &&& after.files == progress.files.insert(read.source_file)
        }),
{
    let next = after_read(progress, read)->Ok_0;
    lemma_ranges(
        Ok::<LoadProgressModel, Seq<char>>(next),
        load,
        read,
        written_ranges(load, read),
    );
}

/// The bytes that were read of the first tensors.
pub open spec fn bytes_read(reads: Seq<VulkanDistributedTensorReadModel>, count: int) -> int
    decreases count,
{
    if count <= 0 {
        0
    } else {
        bytes_read(reads, count - 1) + reads[count - 1].byte_count
    }
}

/// The writes of the ranges of the first tensors.
pub open spec fn all_writes(loads: Seq<VulkanDistributedTensorLoadModel>, count: int) -> int
    decreases count,
{
    if count <= 0 {
        0
    } else {
        all_writes(loads, count - 1) + writes_of(
            loads[count - 1],
            loads[count - 1].ranges.len() as int,
        )
    }
}

/// The bytes that the ranges of the first tensors write.
pub open spec fn all_bytes_of_writes(
    loads: Seq<VulkanDistributedTensorLoadModel>,
    reads: Seq<VulkanDistributedTensorReadModel>,
    count: int,
) -> int
    decreases count,
{
    if count <= 0 {
        0
    } else {
        all_bytes_of_writes(loads, reads, count - 1) + bytes_of_writes(
            loads[count - 1],
            reads[count - 1],
            loads[count - 1].ranges.len() as int,
        )
    }
}

proof fn lemma_same_reads(
    loads: Seq<VulkanDistributedTensorLoadModel>,
    reads: Seq<VulkanDistributedTensorReadModel>,
    others: Seq<VulkanDistributedTensorReadModel>,
    count: int,
)
    requires
        forall|i: int| 0 <= i < count ==> reads[i] == #[trigger] others[i],
    ensures
        bytes_read(reads, count) == bytes_read(others, count),
        all_bytes_of_writes(loads, reads, count) == all_bytes_of_writes(loads, others, count),
    decreases count,
{
    if count > 0 {
        lemma_same_reads(loads, reads, others, count - 1);
        assert(reads[count - 1] == others[count - 1]);
    }
}

/// What is counted of all tensors is the sum over the tensors, and the files are those that
/// they were read from.
pub proof fn law_loading_counts_every_tensor(
    loads: Seq<VulkanDistributedTensorLoadModel>,
    reads: Seq<VulkanDistributedTensorReadModel>,
)
    requires
        loaded(loads, reads) is Ok,
        reads.len() <= loads.len(),
        forall|i: int|
            0 <= i < reads.len() ==> (#[trigger] reads[i]).payloads.len() == loads[i].ranges.len(),
    ensures
        ({
            let progress = loaded(loads, reads)->Ok_0;
            let count = reads.len() as int;
            &&& progress.bytes_read == bytes_read(reads, count)
            &&& progress.writes == all_writes(loads, count)
            &&& progress.bytes_written == all_bytes_of_writes(loads, reads, count)
            &&& forall|i: int|
                0 <= i < count ==> progress.files.contains((#[trigger] reads[i]).source_file)
        }),
    decreases reads.len(),
{
    if reads.len() > 0 {
        let rest = reads.drop_last();
        let last = reads.len() - 1;
        assert forall|i: int| 0 <= i < rest.len() implies (#[trigger] rest[i]).payloads.len()
            == loads[i].ranges.len() by {
            assert(rest[i] == reads[i]);
        }
        law_loading_counts_every_tensor(loads, rest);
        lemma_same_reads(loads, reads, rest, last);
        let before = loaded(loads, rest)->Ok_0;
        law_loading_counts_what_is_read_and_written(before, loads[last], reads[last]);
        assert forall|i: int| 0 <= i < reads.len() implies loaded(
            loads,
            reads,
        )->Ok_0.files.contains((#[trigger] reads[i]).source_file) by {
            if i < last {
                assert(rest[i] == reads[i]);
            }
        }
    }
}

proof fn lemma_ranges_found(
    allocations: Seq<VulkanDistributedParameterAllocationModel>,
    tensor: Seq<char>,
    range: (usize, usize),
)
    ensures
        tensor_ranges(allocations).dom().finite(),
        tensor_ranges(allocations).contains_key(tensor) ==> tensor_ranges(
            allocations,
        )[tensor].finite(),
        (tensor_ranges(allocations).contains_key(tensor) && tensor_ranges(
            allocations,
        )[tensor].contains(range)) <==> holds_range(allocations, tensor, range),
    decreases allocations.len(),
{
    if allocations.len() > 0 {
        let rest = allocations.drop_last();
        let last = allocations.len() - 1;
        lemma_ranges_found(rest, tensor, range);
        lemma_ranges_found(rest, allocations.last().tensor, range);
        if holds_range(rest, tensor, range) {
            let a = choose|a: int|
                0 <= a < rest.len() && is_range(#[trigger] rest[a], tensor, range);
            assert(is_range(allocations[a], tensor, range));
        }
        if is_range(allocations[last], tensor, range) {
            assert(holds_range(allocations, tensor, range));
        }
        if holds_range(allocations, tensor, range) {
            let a = choose|a: int|
                0 <= a < allocations.len() && is_range(#[trigger] allocations[a], tensor, range);
            if a < last {
                assert(is_range(rest[a], tensor, range));
            }
        }
    }
}

/// An allocation holds a range of a tensor.
pub open spec fn is_range(
    allocation: VulkanDistributedParameterAllocationModel,
    tensor: Seq<char>,
    range: (usize, usize),
) -> bool {
    allocation.tensor == tensor && allocation.byte_offset == range.0 && allocation.byte_count
        == range.1
}

/// Some allocation holds a range of a tensor.
pub open spec fn holds_range(
    allocations: Seq<VulkanDistributedParameterAllocationModel>,
    tensor: Seq<char>,
    range: (usize, usize),
) -> bool {
    exists|a: int| 0 <= a < allocations.len() && is_range(#[trigger] allocations[a], tensor, range)
}

/// Some allocation holds a byte of a tensor.
pub open spec fn holds_byte(
    allocations: Seq<VulkanDistributedParameterAllocationModel>,
    tensor: Seq<char>,
    byte: int,
) -> bool {
    exists|a: int|
        0 <= a < allocations.len() && (#[trigger] allocations[a]).tensor == tensor
            && allocations[a].byte_offset <= byte < allocations[a].byte_offset
            + allocations[a].byte_count
}

proof fn lemma_tensors_accepted(
    tensors: TensorIndexModel,
    listing: Seq<(Seq<char>, Set<(usize, usize)>)>,
    index: nat,
)
    requires
        tensors_fault_from(tensors, listing, index) is None,
    ensures
        forall|k: int|
            index <= k < listing.len() ==> tensor_fault(
                tensors,
                (#[trigger] listing[k]).0,
                listing[k].1,
            ) is None,
    decreases listing.len() - index,
{
    if index < listing.len() {
        lemma_tensors_accepted(tensors, listing, index + 1);
    }
}

/// Where the parameters of a plan have to be complete, the allocations hold every byte of
/// every tensor that they hold a part of.
pub proof fn law_complete_parameters_hold_whole_tensors(
    plan: VulkanDistributedExecutionPlanModel,
    tensors: TensorIndexModel,
    index: int,
    byte: int,
)
    requires
        execution_parameters(plan, tensors, true) is Ok,
        0 <= index < execution_parameters(plan, tensors, true)->Ok_0.allocations.len(),
    ensures
        ({
            let allocations = execution_parameters(plan, tensors, true)->Ok_0.allocations;
            let tensor = allocations[index].tensor;
            &&& tensors.tensors.contains_key(tensor)
            &&& tensors.tensors[tensor].byte_count is Some
            &&& 0 <= byte < tensors.tensors[tensor].byte_count->0 <==> holds_byte(
                allocations,
                tensor,
                byte,
            )
        }),
{
    let allocations = execution_parameters(plan, tensors, true)->Ok_0.allocations;
    let allocation = allocations[index];
    let tensor = allocation.tensor;
    let range = (allocation.byte_offset, allocation.byte_count);
    let found = tensor_ranges(allocations);
    let listing = ordered_listing::<String, Set<(usize, usize)>>(found);
    assert(is_range(allocations[index], tensor, range));
    lemma_ranges_found(allocations, tensor, range);
    lemma_ordered_listing_exists::<String, Set<(usize, usize)>>(found);
    lemma_tensors_accepted(tensors, listing, 0);
    assert(lists_key(listing, tensor));
    let k = choose|k: int| 0 <= k < listing.len() && #[trigger] listing[k].0 == tensor;
    lemma_listed_at::<String, Set<(usize, usize)>>(listing, k);
    law_accepted_ranges_hold_every_byte_once(tensors, tensor, found[tensor], byte);
    if 0 <= byte < tensors.tensors[tensor].byte_count->0 {
        let held = choose|held: (usize, usize)|
            found[tensor].contains(held) && #[trigger] range_holds(held, byte);
        lemma_ranges_found(allocations, tensor, held);
        let a = choose|a: int|
            0 <= a < allocations.len() && is_range(#[trigger] allocations[a], tensor, held);
        assert(allocations[a].tensor == tensor);
    }
    if holds_byte(allocations, tensor, byte) {
        let a = choose|a: int|
            0 <= a < allocations.len() && (#[trigger] allocations[a]).tensor == tensor
                && allocations[a].byte_offset <= byte < allocations[a].byte_offset
                + allocations[a].byte_count;
        let held = (allocations[a].byte_offset, allocations[a].byte_count);
        assert(is_range(allocations[a], tensor, held));
        lemma_ranges_found(allocations, tensor, held);
        assert(range_holds(held, byte));
    }
}

proof fn lemma_feedback_number(kernels: Seq<u64>, gates: Seq<Seq<u64>>, count: nat)
    requires
        count <= gates.len(),
        count <= kernels.len(),
    ensures
        feedback_handles(kernels, gates, count).len() == count + sum_of(
            gates.take(count as int),
            gate_number(),
        ),
    decreases count,
{
    if count > 0 {
        lemma_feedback_number(kernels, gates, (count - 1) as nat);
        lemma_sum_step(gates, gate_number(), count - 1);
    } else {
        assert(gates.take(0).len() == 0);
    }
}

/// What a shard counts for feedback is what it registers for it.
pub proof fn law_feedback_counts_what_is_registered(
    shard: VulkanDistributedDispatchShardRunnerModel,
)
    requires
        shard.selected_resource_gates.len() == shard.resident_dispatches.len(),
    ensures
        feedback_number()(shard) == shard_feedback_handles(shard).len(),
{
    let gates = shard.selected_resource_gates;
    lemma_feedback_number(shard.resident_dispatches, gates, gates.len());
    assert(gates.take(gates.len() as int) =~= gates);
}

/// Some runner with news is an island.
pub open spec fn is_news_of(
    runners: Seq<VulkanDistributedDispatchRunnerModel>,
    news: Seq<bool>,
    island: (Seq<char>, usize),
) -> bool {
    exists|r: int|
        #![trigger runners[r]]
        0 <= r < news.len() && news[r] && runners[r].planned.owner_device_id == island.0
            && runners[r].planned.dispatches[0].dispatch_index == island.1
}

/// The pending islands are those whose gates have news: all of them, and no other.
pub proof fn law_pending_islands_have_news(
    runners: Seq<VulkanDistributedDispatchRunnerModel>,
    news: Seq<bool>,
)
    requires
        news.len() <= runners.len(),
    ensures
        forall|r: int|
            #![trigger runners[r]]
            0 <= r < news.len() && news[r] ==> pending_islands(runners, news).contains(
                (
                    runners[r].planned.owner_device_id,
                    runners[r].planned.dispatches[0].dispatch_index,
                ),
            ),
        forall|k: int|
            0 <= k < pending_islands(runners, news).len() ==> is_news_of(
                runners,
                news,
                #[trigger] pending_islands(runners, news)[k],
            ),
    decreases news.len(),
{
    if news.len() > 0 {
        let rest = news.drop_last();
        let last = news.len() - 1;
        law_pending_islands_have_news(runners, rest);
        let earlier = pending_islands(runners, rest);
        let all = pending_islands(runners, news);
        assert forall|r: int|
            #![trigger runners[r]]
            0 <= r < news.len() && news[r] implies all.contains(
            (
                runners[r].planned.owner_device_id,
                runners[r].planned.dispatches[0].dispatch_index,
            ),
        ) by {
            let island = (
                runners[r].planned.owner_device_id,
                runners[r].planned.dispatches[0].dispatch_index,
            );
            if r < last {
                assert(rest[r] == news[r]);
                assert(earlier.contains(island));
                let k = choose|k: int| 0 <= k < earlier.len() && earlier[k] == island;
                assert(all[k] == island);
            } else {
                assert(all[all.len() - 1] == island);
            }
        }
        assert forall|k: int| 0 <= k < all.len() implies is_news_of(
            runners,
            news,
            #[trigger] all[k],
        ) by {
            if k < earlier.len() {
                assert(all[k] == earlier[k]);
                assert(is_news_of(runners, rest, earlier[k]));
                let r = choose|r: int|
                    #![trigger runners[r]]
                    0 <= r < rest.len() && rest[r] && runners[r].planned.owner_device_id
                        == earlier[k].0 && runners[r].planned.dispatches[0].dispatch_index
                        == earlier[k].1;
                assert(news[r]);
                assert(runners[r].planned.owner_device_id == all[k].0);
            } else {
                assert(runners[last].planned.owner_device_id == all[k].0);
            }
        }
    }
}

/// Every gate of every shard is one of its runner's.
pub proof fn law_every_gate_of_a_runner_is_listed(
    shards: Seq<VulkanDistributedDispatchShardRunnerModel>,
    shard: int,
    gate: int,
)
    requires
        0 <= shard < shards.len(),
        0 <= gate < flat_gates(shards[shard].selected_resource_gates).len(),
    ensures
        runner_gates(shards).contains(flat_gates(shards[shard].selected_resource_gates)[gate]),
    decreases shards.len(),
{
    let rest = shards.drop_last();
    let earlier = runner_gates(rest);
    let all = runner_gates(shards);
    let item = flat_gates(shards[shard].selected_resource_gates)[gate];
    if shard < rest.len() {
        law_every_gate_of_a_runner_is_listed(rest, shard, gate);
        let k = choose|k: int| 0 <= k < earlier.len() && earlier[k] == item;
        assert(all[k] == item);
    } else {
        assert(all[earlier.len() + gate] == item);
    }
}

/// Every gate of every runner is one of all gates.
pub proof fn law_every_gate_is_listed(
    runners: Seq<VulkanDistributedDispatchRunnerModel>,
    runner: int,
    gate: int,
)
    requires
        0 <= runner < runners.len(),
        0 <= gate < runner_gates(runners[runner].shards).len(),
    ensures
        all_gates(runners).contains(runner_gates(runners[runner].shards)[gate]),
    decreases runners.len(),
{
    let rest = runners.drop_last();
    let earlier = all_gates(rest);
    let all = all_gates(runners);
    let item = runner_gates(runners[runner].shards)[gate];
    if runner < rest.len() {
        law_every_gate_is_listed(rest, runner, gate);
        let k = choose|k: int| 0 <= k < earlier.len() && earlier[k] == item;
        assert(all[k] == item);
    } else {
        assert(all[earlier.len() + gate] == item);
    }
}

proof fn lemma_contracts_found(
    dispatches: Seq<VulkanDistributedDispatchPlanModel>,
    dispatch_indices: Seq<usize>,
    component_id: Seq<char>,
    index: nat,
    contracts: Map<Seq<char>, Seq<char>>,
)
    requires
        contracts_from(dispatches, dispatch_indices, component_id, index, contracts) is Ok,
    ensures
        ({
            let all = contracts_from(
                dispatches,
                dispatch_indices,
                component_id,
                index,
                contracts,
            )->Ok_0;
            &&& forall|contract_id: Seq<char>| #[trigger]
                contracts.contains_key(contract_id) ==> all.contains_key(contract_id)
                    && all[contract_id] == contracts[contract_id]
            &&& forall|d: int|
                index <= d < dispatch_indices.len() ==> implements(
                    all,
                    dispatches[(#[trigger] dispatch_indices[d]) as int],
                )
            &&& forall|contract_id: Seq<char>| #[trigger]
                all.contains_key(contract_id) ==> contracts.contains_key(contract_id)
                    || is_contract_of_some(dispatches, dispatch_indices, contract_id)
        }),
    decreases dispatch_indices.len() - index,
{
    if index < dispatch_indices.len() {
        let dispatch = dispatches[dispatch_indices[index as int] as int];
        let contract_id = dispatch.physical_execution_contract_id;
        let next = contracts.insert(contract_id, dispatch.implementation_digest);
        lemma_contracts_found(dispatches, dispatch_indices, component_id, index + 1, next);
        assert(next.contains_key(contract_id));
        assert(is_contract_of_some(dispatches, dispatch_indices, contract_id)) by {
            assert(dispatches[dispatch_indices[index as int] as int].physical_execution_contract_id
                == contract_id);
        }
        assert forall|other: Seq<char>| #[trigger] contracts.contains_key(other) implies
            next.contains_key(other) && next[other] == contracts[other] by {}
    }
}

/// The map has the contract of a dispatch with its implementation.
pub open spec fn implements(
    contracts: Map<Seq<char>, Seq<char>>,
    dispatch: VulkanDistributedDispatchPlanModel,
) -> bool {
    contracts.contains_key(dispatch.physical_execution_contract_id)
        && contracts[dispatch.physical_execution_contract_id] == dispatch.implementation_digest
}

/// Some of the dispatches follows a contract.
pub open spec fn is_contract_of_some(
    dispatches: Seq<VulkanDistributedDispatchPlanModel>,
    dispatch_indices: Seq<usize>,
    contract_id: Seq<char>,
) -> bool {
    exists|d: int|
        0 <= d < dispatch_indices.len() && dispatches[(
        #[trigger] dispatch_indices[d]) as int].physical_execution_contract_id == contract_id
}

/// The contracts of a component are those of its dispatches, each with the implementation
/// that all dispatches of the contract have.
pub proof fn law_contracts_are_those_of_the_dispatches(
    dispatches: Seq<VulkanDistributedDispatchPlanModel>,
    dispatch_indices: Seq<usize>,
    component_id: Seq<char>,
)
    requires
        contracts_from(dispatches, dispatch_indices, component_id, 0, Map::empty()) is Ok,
    ensures
        ({
            let contracts = contracts_from(
                dispatches,
                dispatch_indices,
                component_id,
                0,
                Map::empty(),
            )->Ok_0;
            &&& forall|d: int|
                0 <= d < dispatch_indices.len() ==> implements(
                    contracts,
                    dispatches[(#[trigger] dispatch_indices[d]) as int],
                )
            &&& forall|contract_id: Seq<char>| #[trigger]
                contracts.contains_key(contract_id) ==> is_contract_of_some(
                    dispatches,
                    dispatch_indices,
                    contract_id,
                )
        }),
{
    lemma_contracts_found(dispatches, dispatch_indices, component_id, 0, Map::empty());
}

/// A clock goes on by a number of values exactly where it has as many left, and gives out a
/// value, with the next one behind it, exactly where there is a next one.
pub proof fn law_clocks_go_on_while_values_are_left(
    clock: u64,
    count: u64,
    owner_device_id: Seq<char>,
    dispatch_index: usize,
)
    ensures
        advance_fault(clock, count, owner_device_id, dispatch_index) is None <==> count <= u64::MAX
            - clock,
        reserved(clock, owner_device_id, dispatch_index) is Ok <==> clock < u64::MAX,
        reserved(clock, owner_device_id, dispatch_index) is Ok ==> {
            let given = reserved(clock, owner_device_id, dispatch_index)->Ok_0;
            given.0 == clock && given.1 == given.0 + 1
        },
{
}

} // verus!
