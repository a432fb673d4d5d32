//! The parameter bytes that distributed dispatches keep resident.
use vstd::prelude::*;

use crate::dispatch_shards::{
    VulkanDistributedDispatchShardModel, VulkanDistributedParameterFragment,
    VulkanDistributedParameterFragmentModel,
};
use crate::errors::{plan_agrees, VulkanDistributedPlanError};
use crate::execution_plans::{
    VulkanDistributedDispatchPlan, VulkanDistributedDispatchPlanModel,
    VulkanDistributedExecutionPlan, VulkanDistributedExecutionPlanModel,
    VulkanDistributedExecutionPlanSet, VulkanDistributedExecutionPlanSetModel,
};
use crate::ordered::{
    keys_increase, lemma_listed_at, listed_map, ordered_listing, ordered_members, ordered_values,
    OrderedMap, OrderedSet,
};
use crate::prepared::{TensorIndex, TensorIndexModel};
use crate::sequences::{append, fold_from, holds, lemma_sum_prefix, lemma_sum_step, sum_of};
use crate::text::{debug_text, decimal, decimal_text, join2, join3, join4, join6, join7, quoted};
use crate::values::{OrderedKey, PlainValue};

verus! {

/// Bytes of a parameter tensor that are resident on a device.
#[derive(Debug, PartialEq, Eq)]
pub struct VulkanDistributedParameterAllocation {
    pub device_id: String,
    pub tensor: String,
    pub byte_offset: usize,
    pub byte_count: usize,
    pub use_count: usize,
}

/// The model of [`VulkanDistributedParameterAllocation`].
pub struct VulkanDistributedParameterAllocationModel {
    pub device_id: Seq<char>,
    pub tensor: Seq<char>,
    pub byte_offset: usize,
    pub byte_count: usize,
    pub use_count: usize,
}

impl DeepView for VulkanDistributedParameterAllocation {
    type V = VulkanDistributedParameterAllocationModel;

    open spec fn deep_view(&self) -> VulkanDistributedParameterAllocationModel {
        VulkanDistributedParameterAllocationModel {
            device_id: self.device_id.deep_view(),
            tensor: self.tensor.deep_view(),
            byte_offset: self.byte_offset.deep_view(),
            byte_count: self.byte_count.deep_view(),
            use_count: self.use_count.deep_view(),
        }
    }
}

impl Clone for VulkanDistributedParameterAllocation {
    fn clone(&self) -> (copy: Self)
        ensures
            copy.deep_view() == self.deep_view(),
    {
        self.duplicate()
    }
}

impl PlainValue for VulkanDistributedParameterAllocation {
    fn duplicate(&self) -> (copy: Self) {
        VulkanDistributedParameterAllocation {
            device_id: self.device_id.duplicate(),
            tensor: self.tensor.duplicate(),
            byte_offset: self.byte_offset.duplicate(),
            byte_count: self.byte_count.duplicate(),
            use_count: self.use_count.duplicate(),
        }
    }

    fn same(&self, other: &Self) -> (equal: bool) {
        self.device_id.same(&other.device_id)
            && self.tensor.same(&other.tensor)
            && self.byte_offset.same(&other.byte_offset)
            && self.byte_count.same(&other.byte_count)
            && self.use_count.same(&other.use_count)
    }
}

/// The parameter bytes that the devices of a plan keep resident.
#[derive(Debug, PartialEq, Eq)]
pub struct VulkanDistributedParameterAllocationPlan {
    pub allocations: Vec<VulkanDistributedParameterAllocation>,
    pub allocation_count: usize,
    pub tensor_count: usize,
    pub total_byte_capacity: usize,
}

/// The model of [`VulkanDistributedParameterAllocationPlan`].
pub struct VulkanDistributedParameterAllocationPlanModel {
    pub allocations: Seq<VulkanDistributedParameterAllocationModel>,
    pub allocation_count: usize,
    pub tensor_count: usize,
    pub total_byte_capacity: usize,
}

impl DeepView for VulkanDistributedParameterAllocationPlan {
    type V = VulkanDistributedParameterAllocationPlanModel;

    open spec fn deep_view(&self) -> VulkanDistributedParameterAllocationPlanModel {
        VulkanDistributedParameterAllocationPlanModel {
            allocations: self.allocations.deep_view(),
            allocation_count: self.allocation_count.deep_view(),
            tensor_count: self.tensor_count.deep_view(),
            total_byte_capacity: self.total_byte_capacity.deep_view(),
        }
    }
}

impl Clone for VulkanDistributedParameterAllocationPlan {
    fn clone(&self) -> (copy: Self)
        ensures
            copy.deep_view() == self.deep_view(),
    {
        self.duplicate()
    }
}

impl PlainValue for VulkanDistributedParameterAllocationPlan {
    fn duplicate(&self) -> (copy: Self) {
        VulkanDistributedParameterAllocationPlan {
            allocations: self.allocations.duplicate(),
            allocation_count: self.allocation_count.duplicate(),
            tensor_count: self.tensor_count.duplicate(),
            total_byte_capacity: self.total_byte_capacity.duplicate(),
        }
    }

    fn same(&self, other: &Self) -> (equal: bool) {
        self.allocations.same(&other.allocations)
            && self.allocation_count.same(&other.allocation_count)
            && self.tensor_count.same(&other.tensor_count)
            && self.total_byte_capacity.same(&other.total_byte_capacity)
    }
}

/// The place of an allocation among all: device, tensor, offset, count, and the
/// number of allocations before it.
pub type AllocationPlace = (String, (String, (usize, (usize, usize))));

/// The model of [`AllocationPlace`].
pub type AllocationPlaceModel = (Seq<char>, (Seq<char>, (usize, (usize, usize))));

/// The allocations of plans, plan by plan.
pub open spec fn all_allocations(plans: Seq<VulkanDistributedParameterAllocationPlanModel>) -> Seq<
    VulkanDistributedParameterAllocationModel,
>
    decreases plans.len(),
{
    if plans.len() == 0 {
        Seq::empty()
    } else {
        all_allocations(plans.drop_last()) + plans.last().allocations
    }
}

/// The range is empty or ends beyond what can be addressed.
pub open spec fn invalid_range(allocation: VulkanDistributedParameterAllocationModel) -> bool {
    allocation.byte_count == 0 || allocation.byte_offset + allocation.byte_count > usize::MAX
}

/// The first invalid range from an index on makes an error.
pub open spec fn range_fault_from(
    allocations: Seq<VulkanDistributedParameterAllocationModel>,
    index: nat,
) -> Option<Seq<char>>
    decreases allocations.len() - index,
{
    if index >= allocations.len() {
        None
    } else if invalid_range(allocations[index as int]) {
        Some(
            "distributed parameter tensor "@ + debug_text(allocations[index as int].tensor)
                + " has an invalid merge range"@,
        )
    } else {
        range_fault_from(allocations, index + 1)
    }
}

/// The allocations by their places.
pub open spec fn placed(allocations: Seq<VulkanDistributedParameterAllocationModel>) -> Map<
    AllocationPlaceModel,
    VulkanDistributedParameterAllocationModel,
>
    decreases allocations.len(),
{
    if allocations.len() == 0 {
        Map::empty()
    } else {
        let last = allocations.last();
        placed(allocations.drop_last()).insert(
            (
                last.device_id,
                (
                    last.tensor,
                    (last.byte_offset, (last.byte_count, (allocations.len() - 1) as usize)),
                ),
            ),
            last,
        )
    }
}

/// The allocations by device, tensor, offset and count.
pub open spec fn sorted_allocations(
    allocations: Seq<VulkanDistributedParameterAllocationModel>,
) -> Seq<VulkanDistributedParameterAllocationModel> {
    ordered_values::<AllocationPlace, VulkanDistributedParameterAllocationModel>(
        placed(allocations),
    )
}

/// The end of an allocation.
pub open spec fn end_of(allocation: VulkanDistributedParameterAllocationModel) -> int {
    allocation.byte_offset + allocation.byte_count
}

/// Two allocations hold bytes of the same tensor on the same device.
pub open spec fn same_resource(
    left: VulkanDistributedParameterAllocationModel,
    right: VulkanDistributedParameterAllocationModel,
) -> bool {
    left.device_id == right.device_id && left.tensor == right.tensor
}

/// An allocation reaches the next one of the same resource.
pub open spec fn reaches(
    current: VulkanDistributedParameterAllocationModel,
    next: VulkanDistributedParameterAllocationModel,
) -> bool {
    same_resource(current, next) && next.byte_offset <= end_of(current)
}

/// One allocation for the bytes of two that reach each other.
pub open spec fn joined(
    current: VulkanDistributedParameterAllocationModel,
    next: VulkanDistributedParameterAllocationModel,
) -> VulkanDistributedParameterAllocationModel {
    VulkanDistributedParameterAllocationModel {
        device_id: current.device_id,
        tensor: current.tensor,
        byte_offset: current.byte_offset,
        byte_count: (if end_of(current) >= end_of(next) {
            current.byte_count as int
        } else {
            end_of(next) - current.byte_offset
        }) as usize,
        use_count: (current.use_count + next.use_count) as usize,
    }
}

/// Adds an allocation to the merged ones: it joins the last one where that
/// reaches it.
pub open spec fn merge_step() -> spec_fn(
    Seq<VulkanDistributedParameterAllocationModel>,
    VulkanDistributedParameterAllocationModel,
) -> Result<Seq<VulkanDistributedParameterAllocationModel>, Seq<char>> {
    |merged: Seq<VulkanDistributedParameterAllocationModel>,
        next: VulkanDistributedParameterAllocationModel|
        if merged.len() > 0 && reaches(merged.last(), next) {
            if merged.last().use_count + next.use_count > usize::MAX {
                Err(
                    "distributed parameter tensor "@ + debug_text(merged.last().tensor)
                        + " merged use count overflowed"@,
                )
            } else {
                Ok(merged.drop_last().push(joined(merged.last(), next)))
            }
        } else {
            Ok(merged.push(next))
        }
}

/// The bytes of an allocation.
pub open spec fn allocation_bytes() -> spec_fn(VulkanDistributedParameterAllocationModel) -> nat {
    |allocation: VulkanDistributedParameterAllocationModel| allocation.byte_count as nat
}

/// The uses of an allocation.
pub open spec fn allocation_uses() -> spec_fn(VulkanDistributedParameterAllocationModel) -> nat {
    |allocation: VulkanDistributedParameterAllocationModel| allocation.use_count as nat
}

/// The tensors of allocations.
pub open spec fn tensors_of(allocations: Seq<VulkanDistributedParameterAllocationModel>) -> Set<
    Seq<char>,
>
    decreases allocations.len(),
{
    if allocations.len() == 0 {
        Set::empty()
    } else {
        tensors_of(allocations.drop_last()).insert(allocations.last().tensor)
    }
}

/// The plan of allocations, or an error where their bytes do not fit.
pub open spec fn totalled(
    allocations: Seq<VulkanDistributedParameterAllocationModel>,
    message: Seq<char>,
) -> Result<VulkanDistributedParameterAllocationPlanModel, Seq<char>> {
    let bytes = sum_of(allocations, allocation_bytes());
    if bytes > usize::MAX {
        Err(message)
    } else {
        Ok(
            VulkanDistributedParameterAllocationPlanModel {
                allocations,
                allocation_count: allocations.len() as usize,
                tensor_count: tensors_of(allocations).len() as usize,
                total_byte_capacity: bytes as usize,
            },
        )
    }
}

/// The plan that holds the bytes of several plans, or the text of the error.
pub open spec fn merged_plan(plans: Seq<VulkanDistributedParameterAllocationPlanModel>) -> Result<
    VulkanDistributedParameterAllocationPlanModel,
    Seq<char>,
> {
    let allocations = all_allocations(plans);
    match range_fault_from(allocations, 0) {
        Some(message) => Err(message),
        None => match fold_from(sorted_allocations(allocations), 0, Seq::empty(), merge_step()) {
            Err(message) => Err(message),
            Ok(merged) => totalled(merged, "merged distributed parameter capacity overflowed"@),
        },
    }
}

pub fn count_tensors(allocations: &Vec<VulkanDistributedParameterAllocation>) -> (count: usize)
    ensures
        count == tensors_of(allocations.deep_view()).len(),
{
    let ghost all = allocations.deep_view();
    let mut tensors: OrderedSet<String> = OrderedSet::new();
    for index in 0..allocations.len()
        invariant
            all == allocations.deep_view(),
            tensors.deep_view() == tensors_of(all.take(index as int)),
    {
        assert(all.take(index as int + 1).drop_last() =~= all.take(index as int));
        assert(all[index as int] == allocations@[index as int].deep_view());
        tensors.insert(allocations[index].tensor.clone());
    }
    assert(all.take(all.len() as int) =~= all);
    tensors.len()
}

/// Sums up the bytes of allocations, where they fit.
pub fn total_allocation_bytes(allocations: &Vec<VulkanDistributedParameterAllocation>) -> (total:
    Option<usize>)
    ensures
        match total {
            Some(bytes) => bytes == sum_of(allocations.deep_view(), allocation_bytes()),
            None => sum_of(allocations.deep_view(), allocation_bytes()) > usize::MAX,
        },
{
    let ghost all = allocations.deep_view();
    let ghost measure = allocation_bytes();
    let mut total: usize = 0;
    for index in 0..allocations.len()
        invariant
            all == allocations.deep_view(),
            measure == allocation_bytes(),
            total == sum_of(all.take(index as int), measure),
    {
        proof {
            lemma_sum_step(all, measure, index as int);
            lemma_sum_prefix(all, measure, index as int + 1);
            assert(all[index as int] == allocations@[index as int].deep_view());
        }
        match total.checked_add(allocations[index].byte_count) {
            None => {
                return None;
            },
            Some(sum) => {
                total = sum;
            },
        }
    }
    assert(all.take(all.len() as int) =~= all);
    Some(total)
}

fn total_plan(
    allocations: Vec<VulkanDistributedParameterAllocation>,
    message: &str,
) -> (outcome: Result<VulkanDistributedParameterAllocationPlan, VulkanDistributedPlanError>)
    ensures
        plan_agrees(outcome, totalled(allocations.deep_view(), message@)),
{
    match total_allocation_bytes(&allocations) {
        None => Err(VulkanDistributedPlanError(message.to_owned())),
        Some(total_byte_capacity) => {
            let tensor_count: usize = count_tensors(&allocations);
            Ok(
                VulkanDistributedParameterAllocationPlan {
                    allocation_count: allocations.len(),
                    tensor_count,
                    total_byte_capacity,
                    allocations,
                },
            )
        },
    }
}

fn merge_sorted(sorted: &Vec<VulkanDistributedParameterAllocation>) -> (outcome: Result<
    Vec<VulkanDistributedParameterAllocation>,
    VulkanDistributedPlanError,
>)
    requires
        forall|i: int| 0 <= i < sorted.len() ==> !invalid_range((#[trigger] sorted.deep_view()[i])),
    ensures
        plan_agrees(outcome, fold_from(sorted.deep_view(), 0, Seq::empty(), merge_step())),
{
    let ghost all = sorted.deep_view();
    let ghost step = merge_step();
    let mut merged: Vec<VulkanDistributedParameterAllocation> = Vec::new();
    assert(merged.deep_view() =~= Seq::empty());
    for index in 0..sorted.len()
        invariant
            all == sorted.deep_view(),
            step == merge_step(),
            forall|i: int| 0 <= i < all.len() ==> !invalid_range((#[trigger] all[i])),
            forall|i: int| 0 <= i < merged.len() ==> end_of(merged.deep_view()[i]) <= usize::MAX,
            fold_from(all, 0, Seq::empty(), step) == fold_from(
                all,
                index as nat,
                merged.deep_view(),
                step,
            ),
    {
        let next = &sorted[index];
        assert(all[index as int] == next.deep_view());
        let ghost before = merged.deep_view();
        match merged.pop() {
            None => {
                assert(merged.deep_view() =~= before);
                append(&mut merged, next.duplicate());
            },
            Some(current) => {
                assert(merged.deep_view() =~= before.drop_last());
                assert(current.deep_view() == before.last());
                assert(end_of(before[before.len() - 1]) <= usize::MAX);
                let current_end: usize = current.byte_offset + current.byte_count;
                if current.device_id == next.device_id && current.tensor == next.tensor
                    && next.byte_offset <= current_end {
                    let next_end: usize = next.byte_offset + next.byte_count;
                    let use_count: usize = match current.use_count.checked_add(next.use_count) {
                        None => {
                            return Err(
                                VulkanDistributedPlanError(
                                    join3(
                                        "distributed parameter tensor ",
                                        quoted(current.tensor.as_str()).as_str(),
                                        " merged use count overflowed",
                                    ),
                                ),
                            );
                        },
                        Some(uses) => uses,
                    };
                    let byte_count: usize = if current_end >= next_end {
                        current.byte_count
                    } else {
                        next_end - current.byte_offset
                    };
                    append(
                        &mut merged,
                        VulkanDistributedParameterAllocation {
                            device_id: current.device_id,
                            tensor: current.tensor,
                            byte_offset: current.byte_offset,
                            byte_count,
                            use_count,
                        },
                    );
                } else {
                    append(&mut merged, current);
                    assert(merged.deep_view() =~= before);
                    append(&mut merged, next.duplicate());
                }
            },
        }
    }
    Ok(merged)
}

/// The values of the map of places are the allocations that were placed.
pub proof fn lemma_placed_values(allocations: Seq<VulkanDistributedParameterAllocationModel>)
    requires
        allocations.len() <= usize::MAX,
    ensures
        forall|place: AllocationPlaceModel| #[trigger]
            placed(allocations).contains_key(place) ==> place.1.1.1.1 < allocations.len()
                && placed(allocations)[place] == allocations[place.1.1.1.1 as int] && place == (
                place_of(allocations, place.1.1.1.1 as int)),
        forall|i: int|
            0 <= i < allocations.len() ==> #[trigger] placed(allocations).contains_key(
                place_of(allocations, i),
            ),
    decreases allocations.len(),
{
    if allocations.len() > 0 {
        let rest = allocations.drop_last();
        lemma_placed_values(rest);
        assert forall|i: int| 0 <= i < allocations.len() implies #[trigger] placed(
            allocations,
        ).contains_key(place_of(allocations, i)) by {
            if i < rest.len() {
                assert(placed(rest).contains_key(place_of(rest, i)));
                assert(place_of(rest, i) == place_of(allocations, i));
            }
        }
        assert forall|place: AllocationPlaceModel| #[trigger]
            placed(allocations).contains_key(place) implies place.1.1.1.1 < allocations.len()
            && placed(allocations)[place] == allocations[place.1.1.1.1 as int] && place == (
        place_of(allocations, place.1.1.1.1 as int)) by {
            if place != place_of(allocations, allocations.len() - 1) {
                assert(placed(rest).contains_key(place));
            }
        }
    }
}

/// The place of an allocation.
pub open spec fn place_of(
    allocations: Seq<VulkanDistributedParameterAllocationModel>,
    index: int,
) -> AllocationPlaceModel {
    let allocation = allocations[index];
    (
        allocation.device_id,
        (
            allocation.tensor,
            (allocation.byte_offset, (allocation.byte_count, index as usize)),
        ),
    )
}

/// What holds of every allocation holds of every sorted one.
proof fn lemma_sorted_valid(allocations: Seq<VulkanDistributedParameterAllocationModel>, index: int)
    requires
        allocations.len() <= usize::MAX,
        range_fault_from(allocations, 0) is None,
        keys_increase::<AllocationPlace, VulkanDistributedParameterAllocationModel>(
            ordered_listing::<AllocationPlace, VulkanDistributedParameterAllocationModel>(
                placed(allocations),
            ),
        ),
        listed_map(
            ordered_listing::<AllocationPlace, VulkanDistributedParameterAllocationModel>(
                placed(allocations),
            ),
        ) == placed(allocations),
        0 <= index < sorted_allocations(allocations).len(),
    ensures
        !invalid_range(sorted_allocations(allocations)[index]),
{
    let listing = ordered_listing::<AllocationPlace, VulkanDistributedParameterAllocationModel>(
        placed(allocations),
    );
    lemma_listed_at::<AllocationPlace, VulkanDistributedParameterAllocationModel>(listing, index);
    lemma_placed_values(allocations);
    let place = listing[index].0;
    assert(placed(allocations).contains_key(place));
    lemma_valid_at(allocations, 0, place.1.1.1.1 as int);
}

pub proof fn lemma_valid_at(
    allocations: Seq<VulkanDistributedParameterAllocationModel>,
    start: nat,
    index: int,
)
    requires
        range_fault_from(allocations, start) is None,
        start <= index < allocations.len(),
    ensures
        !invalid_range(allocations[index]),
    decreases allocations.len() - start,
{
    if start < index {
        lemma_valid_at(allocations, start + 1, index);
    }
}

impl VulkanDistributedParameterAllocationPlan {
    /// Merges plans: ranges of a tensor that overlap or touch on a device become
    /// one.
    pub fn merged(plans: &[VulkanDistributedParameterAllocationPlan]) -> (outcome: Result<
        Self,
        VulkanDistributedPlanError,
    >)
        ensures
            plan_agrees(outcome, merged_plan(plans.deep_view())),
    {
        let ghost models = plans.deep_view();
        let mut allocations: Vec<VulkanDistributedParameterAllocation> = Vec::new();
        assert(allocations.deep_view() =~= Seq::empty());
        for index in 0..plans.len()
            invariant
                models == plans.deep_view(),
                allocations.deep_view() == all_allocations(models.take(index as int)),
        {
            assert(models.take(index as int + 1).drop_last() =~= models.take(index as int));
            assert(models[index as int] == plans@[index as int].deep_view());
            crate::islands::append_all(&mut allocations, &plans[index].allocations);
        }
        assert(models.take(models.len() as int) =~= models);
        let ghost all = allocations.deep_view();
        let mut places: OrderedMap<AllocationPlace, VulkanDistributedParameterAllocation> =
            OrderedMap::new();
        for index in 0..allocations.len()
            invariant
                all == allocations.deep_view(),
                all == all_allocations(plans.deep_view()),
                range_fault_from(all, 0) == range_fault_from(all, index as nat),
                places.deep_view() == placed(all.take(index as int)),
        {
            let allocation = &allocations[index];
            assert(all[index as int] == allocation.deep_view());
            assert(all.take(index as int + 1).drop_last() =~= all.take(index as int));
            let in_range: bool = match allocation.byte_offset.checked_add(allocation.byte_count) {
                Some(_) => true,
                None => false,
            };
            if allocation.byte_count == 0 || !in_range {
                return Err(
                    VulkanDistributedPlanError(
                        join3(
                            "distributed parameter tensor ",
                            quoted(allocation.tensor.as_str()).as_str(),
                            " has an invalid merge range",
                        ),
                    ),
                );
            }
            places.insert(
                (
                    allocation.device_id.clone(),
                    (
                        allocation.tensor.clone(),
                        (allocation.byte_offset, (allocation.byte_count, index)),
                    ),
                ),
                allocation.duplicate(),
            );
        }
        assert(all.take(all.len() as int) =~= all);
        let place_count: usize = places.len();
        let sorted = places.to_values();
        proof {
            assert(allocations.len() == all.len());
            assert forall|i: int| 0 <= i < sorted.len() implies !invalid_range(
                (#[trigger] sorted.deep_view()[i]),
            ) by {
                lemma_sorted_valid(all, i);
            }
        }
        match merge_sorted(&sorted) {
            Err(error) => Err(error),
            Ok(merged) => total_plan(merged, "merged distributed parameter capacity overflowed"),
        }
    }
}

/// Device, tensor, offset and count of an allocation.
pub type AllocationKey = (String, (String, (usize, usize)));

/// The model of [`AllocationKey`].
pub type AllocationKeyModel = (Seq<char>, (Seq<char>, (usize, usize)));

/// The key of a fragment on a device.
pub open spec fn fragment_key(
    device_id: Seq<char>,
    fragment: VulkanDistributedParameterFragmentModel,
) -> AllocationKeyModel {
    (device_id, (fragment.tensor, (fragment.byte_offset, fragment.byte_count)))
}

/// Counts one more use of a fragment on a device.
pub open spec fn fragment_use_step(tensors: TensorIndexModel, device_id: Seq<char>) -> spec_fn(
    Map<AllocationKeyModel, usize>,
    VulkanDistributedParameterFragmentModel,
) -> Result<Map<AllocationKeyModel, usize>, Seq<char>> {
    |uses: Map<AllocationKeyModel, usize>, fragment: VulkanDistributedParameterFragmentModel|
        {
            let tensor = fragment.tensor;
            let key = fragment_key(device_id, fragment);
            let end = fragment.byte_offset + fragment.byte_count;
            if !tensors.tensors.contains_key(tensor) {
                Err(
                    "distributed parameter fragment has no tensor metadata for "@ + debug_text(
                        tensor,
                    ),
                )
            } else if tensors.tensors[tensor].byte_count is None {
                Err(
                    "distributed parameter tensor "@ + debug_text(tensor) + " has no byte count"@,
                )
            } else if fragment.byte_count == 0 {
                Err(
                    "distributed parameter tensor "@ + debug_text(tensor)
                        + " has an empty fragment"@,
                )
            } else if end > usize::MAX {
                Err(
                    "distributed parameter tensor "@ + debug_text(tensor)
                        + " fragment range overflowed"@,
                )
            } else if end > tensors.tensors[tensor].byte_count->0 {
                Err(
                    "distributed parameter tensor "@ + debug_text(tensor) + " has "@ + decimal_text(
                        tensors.tensors[tensor].byte_count->0 as nat,
                    ) + " bytes but a fragment ends at "@ + decimal_text(end as nat),
                )
            } else if uses.contains_key(key) && uses[key] + 1 > usize::MAX {
                Err(
                    "distributed parameter tensor "@ + debug_text(tensor)
                        + " use count overflowed"@,
                )
            } else if uses.contains_key(key) {
                Ok(uses.insert(key, (uses[key] + 1) as usize))
            } else {
                Ok(uses.insert(key, 1))
            }
        }
}

/// Counts the uses of the fragments of a shard.
pub open spec fn shard_use_step(
    tensors: TensorIndexModel,
    device_ids: Seq<Seq<char>>,
    dispatch: VulkanDistributedDispatchPlanModel,
) -> spec_fn(
    Map<AllocationKeyModel, usize>,
    VulkanDistributedDispatchShardModel,
) -> Result<Map<AllocationKeyModel, usize>, Seq<char>> {
    |uses: Map<AllocationKeyModel, usize>, shard: VulkanDistributedDispatchShardModel|
        if !device_ids.contains(shard.device_id) {
            Err(
                "distributed parameter shard for "@ + dispatch.component_id + "."@
                    + dispatch.node_id + " uses device "@ + debug_text(shard.device_id)
                    + " outside the execution pool"@,
            )
        } else {
            fold_from(shard.parameters, 0, uses, fragment_use_step(tensors, shard.device_id))
        }
}

/// Counts the uses of the fragments of a dispatch.
pub open spec fn dispatch_use_step(
    tensors: TensorIndexModel,
    device_ids: Seq<Seq<char>>,
) -> spec_fn(
    Map<AllocationKeyModel, usize>,
    VulkanDistributedDispatchPlanModel,
) -> Result<Map<AllocationKeyModel, usize>, Seq<char>> {
    |uses: Map<AllocationKeyModel, usize>, dispatch: VulkanDistributedDispatchPlanModel|
        fold_from(dispatch.shards, 0, uses, shard_use_step(tensors, device_ids, dispatch))
}

/// The allocation of a fragment with its uses.
pub open spec fn used_allocation(
    entry: (AllocationKeyModel, usize),
) -> VulkanDistributedParameterAllocationModel {
    VulkanDistributedParameterAllocationModel {
        device_id: entry.0.0,
        tensor: entry.0.1.0,
        byte_offset: entry.0.1.1.0,
        byte_count: entry.0.1.1.1,
        use_count: entry.1,
    }
}

/// The allocations of counted fragments, by device, tensor, offset and count.
pub open spec fn used_allocations(uses: Map<AllocationKeyModel, usize>) -> Seq<
    VulkanDistributedParameterAllocationModel,
> {
    ordered_listing::<AllocationKey, usize>(uses).map_values(
        |entry: (AllocationKeyModel, usize)| used_allocation(entry),
    )
}

/// The ranges of every tensor, each once.
pub open spec fn tensor_ranges(
    allocations: Seq<VulkanDistributedParameterAllocationModel>,
) -> Map<Seq<char>, Set<(usize, usize)>>
    decreases allocations.len(),
{
    if allocations.len() == 0 {
        Map::empty()
    } else {
        let found = tensor_ranges(allocations.drop_last());
        let last = allocations.last();
        let ranges = if found.contains_key(last.tensor) {
            found[last.tensor]
        } else {
            Set::empty()
        };
        found.insert(last.tensor, ranges.insert((last.byte_offset, last.byte_count)))
    }
}

/// The end of ranges that follow each other from an offset on, or the text of the
/// error.
pub open spec fn tiled_from(
    tensor: Seq<char>,
    ranges: Seq<(usize, usize)>,
    index: nat,
    offset: usize,
) -> Result<usize, Seq<char>>
    decreases ranges.len() - index,
{
    if index >= ranges.len() {
        Ok(offset)
    } else if ranges[index as int].0 != offset {
        Err(
            "distributed parameter tensor "@ + debug_text(tensor)
                + " has a gap or overlap at byte "@ + decimal_text(offset as nat),
        )
    } else if offset + ranges[index as int].1 > usize::MAX {
        Err("distributed parameter tensor "@ + debug_text(tensor) + " partition overflowed"@)
    } else {
        tiled_from(tensor, ranges, index + 1, (offset + ranges[index as int].1) as usize)
    }
}

/// What is wrong with the ranges of a tensor: they do not follow each other from
/// its first byte to its last.
pub open spec fn tensor_fault(
    tensors: TensorIndexModel,
    tensor: Seq<char>,
    ranges: Set<(usize, usize)>,
) -> Option<Seq<char>> {
    if !tensors.tensors.contains_key(tensor) || tensors.tensors[tensor].byte_count is None {
        Some("distributed parameter tensor "@ + debug_text(tensor) + " has no byte count"@)
    } else {
        match tiled_from(tensor, ordered_members::<(usize, usize)>(ranges), 0, 0) {
            Err(message) => Some(message),
            Ok(end) => if end != tensors.tensors[tensor].byte_count->0 {
                Some(
                    "distributed parameter tensor "@ + debug_text(tensor) + " partition covers "@
                        + decimal_text(end as nat) + " of "@ + decimal_text(
                        tensors.tensors[tensor].byte_count->0 as nat,
                    ) + " bytes"@,
                )
            } else {
                None
            },
        }
    }
}

/// What is wrong with the ranges of tensors from an index on.
pub open spec fn tensors_fault_from(
    tensors: TensorIndexModel,
    listing: Seq<(Seq<char>, Set<(usize, usize)>)>,
    index: nat,
) -> Option<Seq<char>>
    decreases listing.len() - index,
{
    if index >= listing.len() {
        None
    } else {
        match tensor_fault(tensors, listing[index as int].0, listing[index as int].1) {
            Some(message) => Some(message),
            None => tensors_fault_from(tensors, listing, index + 1),
        }
    }
}

/// What is wrong with the coverage of the tensors of allocations.
pub open spec fn partition_fault(
    tensors: TensorIndexModel,
    allocations: Seq<VulkanDistributedParameterAllocationModel>,
) -> Option<Seq<char>> {
    tensors_fault_from(
        tensors,
        ordered_listing::<String, Set<(usize, usize)>>(tensor_ranges(allocations)),
        0,
    )
}

/// The parameter plan of an execution plan, or the text of the error.
pub open spec fn execution_parameters(
    plan: VulkanDistributedExecutionPlanModel,
    tensors: TensorIndexModel,
    complete: bool,
) -> Result<VulkanDistributedParameterAllocationPlanModel, Seq<char>> {
    match fold_from(
        plan.dispatches,
        0,
        Map::empty(),
        dispatch_use_step(tensors, plan.device_ids),
    ) {
        Err(message) => Err(message),
        Ok(uses) => if complete && partition_fault(tensors, used_allocations(uses)) is Some {
            Err(partition_fault(tensors, used_allocations(uses))->0)
        } else {
            totalled(
                used_allocations(uses),
                "distributed parameter allocation byte count overflowed"@,
            )
        },
    }
}

fn validate_tensor(
    tensor_index: &TensorIndex,
    tensor: &String,
    ranges: &OrderedSet<(usize, usize)>,
) -> (outcome: Result<(), VulkanDistributedPlanError>)
    ensures
        match outcome {
            Ok(_) => tensor_fault(tensor_index.deep_view(), tensor@, ranges.deep_view()) is None,
            Err(error) => tensor_fault(tensor_index.deep_view(), tensor@, ranges.deep_view())
                == Some(error.0@),
        },
{
    let byte_count: Option<usize> = match tensor_index.tensors.get(tensor) {
        None => None,
        Some(metadata) => metadata.byte_count,
    };
    let tensor_byte_count: usize = match byte_count {
        None => {
            return Err(
                VulkanDistributedPlanError(
                    join3(
                        "distributed parameter tensor ",
                        quoted(tensor.as_str()).as_str(),
                        " has no byte count",
                    ),
                ),
            );
        },
        Some(count) => count,
    };
    let ghost listing = ranges.listing();
    let ghost expected = tensor_fault(tensor_index.deep_view(), tensor@, ranges.deep_view());
    let count: usize = ranges.len();
    let mut next_offset: usize = 0;
    for index in 0..count
        invariant
            listing == ranges.listing(),
            count == listing.len(),
            expected == tensor_fault(tensor_index.deep_view(), tensor@, ranges.deep_view()),
            tiled_from(tensor@, listing, 0, 0) == tiled_from(
                tensor@,
                listing,
                index as nat,
                next_offset,
            ),
            tiled_from(tensor@, listing, 0, 0) is Err ==> expected == Some(
                tiled_from(tensor@, listing, 0, 0)->Err_0,
            ),
    {
        let range = ranges.member_at(index);
        if range.0 != next_offset {
            return Err(
                VulkanDistributedPlanError(
                    join4(
                        "distributed parameter tensor ",
                        quoted(tensor.as_str()).as_str(),
                        " has a gap or overlap at byte ",
                        decimal(next_offset).as_str(),
                    ),
                ),
            );
        }
        match next_offset.checked_add(range.1) {
            None => {
                return Err(
                    VulkanDistributedPlanError(
                        join3(
                            "distributed parameter tensor ",
                            quoted(tensor.as_str()).as_str(),
                            " partition overflowed",
                        ),
                    ),
                );
            },
            Some(offset) => {
                next_offset = offset;
            },
        }
    }
    if next_offset != tensor_byte_count {
        return Err(
            VulkanDistributedPlanError(
                join7(
                    "distributed parameter tensor ",
                    quoted(tensor.as_str()).as_str(),
                    " partition covers ",
                    decimal(next_offset).as_str(),
                    " of ",
                    decimal(tensor_byte_count).as_str(),
                    " bytes",
                ),
            ),
        );
    }
    Ok(())
}

/// Checks that the ranges of every tensor follow each other from its first byte to
/// its last.
pub fn validate_tensor_partition_coverage(
    allocations: &Vec<VulkanDistributedParameterAllocation>,
    tensor_index: &TensorIndex,
) -> (outcome: Result<(), VulkanDistributedPlanError>)
    ensures
        match outcome {
            Ok(_) => partition_fault(tensor_index.deep_view(), allocations.deep_view()) is None,
            Err(error) => partition_fault(tensor_index.deep_view(), allocations.deep_view())
                == Some(error.0@),
        },
{
    let ghost all = allocations.deep_view();
    let mut ranges_by_tensor: OrderedMap<String, OrderedSet<(usize, usize)>> = OrderedMap::new();
    for index in 0..allocations.len()
        invariant
            all == allocations.deep_view(),
            ranges_by_tensor.deep_view() == tensor_ranges(all.take(index as int)),
    {
        assert(all.take(index as int + 1).drop_last() =~= all.take(index as int));
        let allocation = &allocations[index];
        assert(all[index as int] == allocation.deep_view());
        let mut ranges: OrderedSet<(usize, usize)> = match ranges_by_tensor.get(
            &allocation.tensor,
        ) {
            Some(found) => found.duplicate(),
            None => OrderedSet::new(),
        };
        ranges.insert((allocation.byte_offset, allocation.byte_count));
        ranges_by_tensor.insert(allocation.tensor.clone(), ranges);
    }
    assert(all.take(all.len() as int) =~= all);
    let ghost listing = ranges_by_tensor.listing();
    let count: usize = ranges_by_tensor.len();
    for index in 0..count
        invariant
            count == listing.len(),
            listing == ranges_by_tensor.listing(),
            ranges_by_tensor.deep_view() == tensor_ranges(allocations.deep_view()),
            partition_fault(tensor_index.deep_view(), allocations.deep_view())
                == tensors_fault_from(tensor_index.deep_view(), listing, index as nat),
    {
        match validate_tensor(
            tensor_index,
            ranges_by_tensor.key_at(index),
            ranges_by_tensor.value_at(index),
        ) {
            Err(error) => {
                return Err(error);
            },
            Ok(_) => {},
        }
    }
    Ok(())
}

fn count_fragment(
    uses: &mut OrderedMap<AllocationKey, usize>,
    tensor_index: &TensorIndex,
    device_id: &String,
    fragment: &VulkanDistributedParameterFragment,
) -> (outcome: Result<(), VulkanDistributedPlanError>)
    ensures
        match outcome {
            Ok(_) => fragment_use_step(tensor_index.deep_view(), device_id@)(
                old(uses).deep_view(),
                fragment.deep_view(),
            ) == Ok::<Map<AllocationKeyModel, usize>, Seq<char>>(final(uses).deep_view()),
            Err(error) => fragment_use_step(tensor_index.deep_view(), device_id@)(
                old(uses).deep_view(),
                fragment.deep_view(),
            ) == Err::<Map<AllocationKeyModel, usize>, Seq<char>>(error.0@),
        },
{
    let tensor = &fragment.tensor;
    let metadata = match tensor_index.tensors.get(tensor) {
        None => {
            return Err(
                VulkanDistributedPlanError(
                    join2(
                        "distributed parameter fragment has no tensor metadata for ",
                        quoted(tensor.as_str()).as_str(),
                    ),
                ),
            );
        },
        Some(metadata) => metadata,
    };
    let tensor_byte_count: usize = match metadata.byte_count {
        None => {
            return Err(
                VulkanDistributedPlanError(
                    join3(
                        "distributed parameter tensor ",
                        quoted(tensor.as_str()).as_str(),
                        " has no byte count",
                    ),
                ),
            );
        },
        Some(count) => count,
    };
    if fragment.byte_count == 0 {
        return Err(
            VulkanDistributedPlanError(
                join3(
                    "distributed parameter tensor ",
                    quoted(tensor.as_str()).as_str(),
                    " has an empty fragment",
                ),
            ),
        );
    }
    let byte_end: usize = match fragment.byte_offset.checked_add(fragment.byte_count) {
        None => {
            return Err(
                VulkanDistributedPlanError(
                    join3(
                        "distributed parameter tensor ",
                        quoted(tensor.as_str()).as_str(),
                        " fragment range overflowed",
                    ),
                ),
            );
        },
        Some(end) => end,
    };
    if byte_end > tensor_byte_count {
        return Err(
            VulkanDistributedPlanError(
                join6(
                    "distributed parameter tensor ",
                    quoted(tensor.as_str()).as_str(),
                    " has ",
                    decimal(tensor_byte_count).as_str(),
                    " bytes but a fragment ends at ",
                    decimal(byte_end).as_str(),
                ),
            ),
        );
    }
    let key: AllocationKey = (
        device_id.clone(),
        (tensor.clone(), (fragment.byte_offset, fragment.byte_count)),
    );
    let use_count: usize = match uses.get(&key) {
        None => 1,
        Some(count) => match count.checked_add(1) {
            None => {
                return Err(
                    VulkanDistributedPlanError(
                        join3(
                            "distributed parameter tensor ",
                            quoted(tensor.as_str()).as_str(),
                            " use count overflowed",
                        ),
                    ),
                );
            },
            Some(count) => count,
        },
    };
    uses.insert(key, use_count);
    Ok(())
}

fn count_fragments(
    uses: &mut OrderedMap<AllocationKey, usize>,
    tensor_index: &TensorIndex,
    device_id: &String,
    fragments: &Vec<VulkanDistributedParameterFragment>,
) -> (outcome: Result<(), VulkanDistributedPlanError>)
    ensures
        match outcome {
            Ok(_) => fold_from(
                fragments.deep_view(),
                0,
                old(uses).deep_view(),
                fragment_use_step(tensor_index.deep_view(), device_id@),
            ) == Ok::<Map<AllocationKeyModel, usize>, Seq<char>>(final(uses).deep_view()),
            Err(error) => fold_from(
                fragments.deep_view(),
                0,
                old(uses).deep_view(),
                fragment_use_step(tensor_index.deep_view(), device_id@),
            ) == Err::<Map<AllocationKeyModel, usize>, Seq<char>>(error.0@),
        },
{
    let ghost all = fragments.deep_view();
    let ghost step = fragment_use_step(tensor_index.deep_view(), device_id@);
    for index in 0..fragments.len()
        invariant
            all == fragments.deep_view(),
            step == fragment_use_step(tensor_index.deep_view(), device_id@),
            fold_from(all, 0, old(uses).deep_view(), step) == fold_from(
                all,
                index as nat,
                uses.deep_view(),
                step,
            ),
    {
        assert(all[index as int] == fragments@[index as int].deep_view());
        match count_fragment(uses, tensor_index, device_id, &fragments[index]) {
            Err(error) => {
                return Err(error);
            },
            Ok(_) => {},
        }
    }
    Ok(())
}

fn count_dispatch(
    uses: &mut OrderedMap<AllocationKey, usize>,
    tensor_index: &TensorIndex,
    device_ids: &Vec<String>,
    dispatch: &VulkanDistributedDispatchPlan,
) -> (outcome: Result<(), VulkanDistributedPlanError>)
    ensures
        match outcome {
            Ok(_) => dispatch_use_step(tensor_index.deep_view(), device_ids.deep_view())(
                old(uses).deep_view(),
                dispatch.deep_view(),
            ) == Ok::<Map<AllocationKeyModel, usize>, Seq<char>>(final(uses).deep_view()),
            Err(error) => dispatch_use_step(tensor_index.deep_view(), device_ids.deep_view())(
                old(uses).deep_view(),
                dispatch.deep_view(),
            ) == Err::<Map<AllocationKeyModel, usize>, Seq<char>>(error.0@),
        },
{
    let ghost all = dispatch.deep_view().shards;
    let ghost step = shard_use_step(
        tensor_index.deep_view(),
        device_ids.deep_view(),
        dispatch.deep_view(),
    );
    for index in 0..dispatch.shards.len()
        invariant
            all == dispatch.deep_view().shards,
            step == shard_use_step(
                tensor_index.deep_view(),
                device_ids.deep_view(),
                dispatch.deep_view(),
            ),
            fold_from(all, 0, old(uses).deep_view(), step) == fold_from(
                all,
                index as nat,
                uses.deep_view(),
                step,
            ),
    {
        let shard = &dispatch.shards[index];
        assert(all[index as int] == shard.deep_view());
        if !holds(device_ids, &shard.device_id) {
            return Err(
                VulkanDistributedPlanError(
                    join7(
                        "distributed parameter shard for ",
                        dispatch.component_id.as_str(),
                        ".",
                        dispatch.node_id.as_str(),
                        " uses device ",
                        quoted(shard.device_id.as_str()).as_str(),
                        " outside the execution pool",
                    ),
                ),
            );
        }
        match count_fragments(uses, tensor_index, &shard.device_id, &shard.parameters) {
            Err(error) => {
                return Err(error);
            },
            Ok(_) => {},
        }
    }
    Ok(())
}

fn list_used_allocations(uses: &OrderedMap<AllocationKey, usize>) -> (allocations: Vec<
    VulkanDistributedParameterAllocation,
>)
    ensures
        allocations.deep_view() == used_allocations(uses.deep_view()),
{
    let ghost expected = used_allocations(uses.deep_view());
    let count: usize = uses.len();
    let mut allocations: Vec<VulkanDistributedParameterAllocation> = Vec::new();
    for index in 0..count
        invariant
            count == uses.listing().len(),
            expected.len() == count,
            forall|i: int|
                0 <= i < count ==> #[trigger] expected[i] == used_allocation(uses.listing()[i]),
            allocations.deep_view() == expected.take(index as int),
    {
        let key = uses.key_at(index);
        append(
            &mut allocations,
            VulkanDistributedParameterAllocation {
                device_id: key.0.clone(),
                tensor: key.1.0.clone(),
                byte_offset: key.1.1.0,
                byte_count: key.1.1.1,
                use_count: *uses.value_at(index),
            },
        );
        assert(expected.take(index as int + 1) =~= expected.take(index as int).push(
            expected[index as int],
        ));
    }
    assert(expected.take(expected.len() as int) =~= expected);
    allocations
}

/// The parameter plan that serves every plan of a set, or the text of the error.
pub open spec fn set_parameters(
    plans: VulkanDistributedExecutionPlanSetModel,
    tensors: TensorIndexModel,
) -> Result<VulkanDistributedParameterAllocationPlanModel, Seq<char>> {
    match execution_parameters(plans.decode, tensors, true) {
        Err(message) => Err(message),
        Ok(decode) => match execution_parameters(plans.decode_batch, tensors, true) {
            Err(message) => Err(message),
            Ok(decode_batch) => match execution_parameters(plans.prefill, tensors, true) {
                Err(message) => Err(message),
                Ok(prefill) => merged_plan(seq![decode, decode_batch, prefill]),
            },
        },
    }
}

impl VulkanDistributedParameterAllocationPlan {
    /// The parameter bytes that every plan of a set keeps resident.
    pub fn from_execution_plan_set(
        plans: &VulkanDistributedExecutionPlanSet,
        tensor_index: &TensorIndex,
    ) -> (outcome: Result<Self, VulkanDistributedPlanError>)
        ensures
            plan_agrees(outcome, set_parameters(plans.deep_view(), tensor_index.deep_view())),
    {
        let mut phase_plans: Vec<VulkanDistributedParameterAllocationPlan> = Vec::new();
        match Self::from_execution_plan(&plans.decode, tensor_index) {
            Err(error) => {
                return Err(error);
            },
            Ok(plan) => {
                append(&mut phase_plans, plan);
            },
        }
        match Self::from_execution_plan(&plans.decode_batch, tensor_index) {
            Err(error) => {
                return Err(error);
            },
            Ok(plan) => {
                append(&mut phase_plans, plan);
            },
        }
        match Self::from_execution_plan(&plans.prefill, tensor_index) {
            Err(error) => {
                return Err(error);
            },
            Ok(plan) => {
                append(&mut phase_plans, plan);
            },
        }
        let ghost expected = seq![
            execution_parameters(plans.deep_view().decode, tensor_index.deep_view(), true)->Ok_0,
            execution_parameters(
                plans.deep_view().decode_batch,
                tensor_index.deep_view(),
                true,
            )->Ok_0,
            execution_parameters(plans.deep_view().prefill, tensor_index.deep_view(), true)->Ok_0,
        ];
        assert(phase_plans.deep_view() =~= expected);
        let alternatives = phase_plans.as_slice();
        assert(alternatives.deep_view() =~= expected);
        Self::merged(alternatives)
    }

    /// The parameter bytes that a plan keeps resident, where they cover every tensor
    /// that they belong to.
    pub fn from_execution_plan(
        execution_plan: &VulkanDistributedExecutionPlan,
        tensor_index: &TensorIndex,
    ) -> (outcome: Result<Self, VulkanDistributedPlanError>)
        ensures
            plan_agrees(
                outcome,
                execution_parameters(execution_plan.deep_view(), tensor_index.deep_view(), true),
            ),
    {
        Self::from_execution_plan_with_coverage(execution_plan, tensor_index, true)
    }

    /// The parameter bytes that a sampled plan keeps resident.
    pub fn from_sampled_execution_plan(
        execution_plan: &VulkanDistributedExecutionPlan,
        tensor_index: &TensorIndex,
    ) -> (outcome: Result<Self, VulkanDistributedPlanError>)
        ensures
            plan_agrees(
                outcome,
                execution_parameters(execution_plan.deep_view(), tensor_index.deep_view(), false),
            ),
    {
        Self::from_execution_plan_with_coverage(execution_plan, tensor_index, false)
    }

    fn from_execution_plan_with_coverage(
        execution_plan: &VulkanDistributedExecutionPlan,
        tensor_index: &TensorIndex,
        require_complete_tensor_coverage: bool,
    ) -> (outcome: Result<Self, VulkanDistributedPlanError>)
        ensures
            plan_agrees(
                outcome,
                execution_parameters(
                    execution_plan.deep_view(),
                    tensor_index.deep_view(),
                    require_complete_tensor_coverage,
                ),
            ),
    {
        let ghost plan = execution_plan.deep_view();
        let ghost tensors = tensor_index.deep_view();
        let ghost step = dispatch_use_step(tensors, plan.device_ids);
        let mut uses: OrderedMap<AllocationKey, usize> = OrderedMap::new();
        for index in 0..execution_plan.dispatches.len()
            invariant
                plan == execution_plan.deep_view(),
                tensors == tensor_index.deep_view(),
                step == dispatch_use_step(tensors, plan.device_ids),
                fold_from(plan.dispatches, 0, Map::empty(), step) == fold_from(
                    plan.dispatches,
                    index as nat,
                    uses.deep_view(),
                    step,
                ),
        {
            assert(plan.dispatches[index as int]
                == execution_plan.dispatches@[index as int].deep_view());
            match count_dispatch(
                &mut uses,
                tensor_index,
                &execution_plan.device_ids,
                &execution_plan.dispatches[index],
            ) {
                Err(error) => {
                    return Err(error);
                },
                Ok(_) => {},
            }
        }
        let allocations = list_used_allocations(&uses);
        if require_complete_tensor_coverage {
            match validate_tensor_partition_coverage(&allocations, tensor_index) {
                Err(error) => {
                    return Err(error);
                },
                Ok(_) => {},
            }
        }
        total_plan(allocations, "distributed parameter allocation byte count overflowed")
    }
}

} // verus!
