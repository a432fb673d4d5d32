//! Loading the parameters of distributed dispatches into resident buffers.
use vstd::prelude::*;

use crate::errors::{VulkanDistributedParameterBufferError, VulkanDistributedParameterLoadError};
use crate::ordered::{
    lemma_listed_at, lemma_ordered_listing_exists, lists_key, ordered_listing, OrderedMap,
    OrderedSet,
};
use crate::parameter_plans::{
    end_of, VulkanDistributedParameterAllocation, VulkanDistributedParameterAllocationModel,
    VulkanDistributedParameterAllocationPlan, VulkanDistributedParameterAllocationPlanModel,
};
use crate::resident::{VulkanResidentBuffer, VulkanResidentKernelBufferBinding};
use crate::sequences::{append, find_from};
use crate::text::{debug_text, decimal, decimal_text, join12, quoted};
use crate::values::PlainValue;

verus! {

/// Parameter bytes with the part of a buffer that holds them.
#[derive(Debug, PartialEq, Eq)]
pub struct VulkanDistributedParameterBufferAllocation {
    pub allocation: VulkanDistributedParameterAllocation,
    pub buffer: VulkanResidentBuffer,
    pub byte_offset: usize,
}

/// The model of [`VulkanDistributedParameterBufferAllocation`].
pub struct VulkanDistributedParameterBufferAllocationModel {
    pub allocation: VulkanDistributedParameterAllocationModel,
    pub buffer: VulkanResidentBuffer,
    pub byte_offset: usize,
}

impl DeepView for VulkanDistributedParameterBufferAllocation {
    type V = VulkanDistributedParameterBufferAllocationModel;

    open spec fn deep_view(&self) -> VulkanDistributedParameterBufferAllocationModel {
        VulkanDistributedParameterBufferAllocationModel {
            allocation: self.allocation.deep_view(),
            buffer: self.buffer.deep_view(),
            byte_offset: self.byte_offset.deep_view(),
        }
    }
}

impl Clone for VulkanDistributedParameterBufferAllocation {
    fn clone(&self) -> (copy: Self)
        ensures
            copy.deep_view() == self.deep_view(),
    {
        self.duplicate()
    }
}

impl PlainValue for VulkanDistributedParameterBufferAllocation {
    fn duplicate(&self) -> (copy: Self) {
        VulkanDistributedParameterBufferAllocation {
            allocation: self.allocation.duplicate(),
            buffer: self.buffer.duplicate(),
            byte_offset: self.byte_offset.duplicate(),
        }
    }

    fn same(&self, other: &Self) -> (equal: bool) {
        self.allocation.same(&other.allocation)
            && self.buffer.same(&other.buffer)
            && self.byte_offset.same(&other.byte_offset)
    }
}

/// A byte range of a stored tensor.
#[derive(Clone, Copy, Debug, PartialEq, Eq, Structural)]
pub struct TensorStorageRange {
    pub byte_offset: usize,
    pub byte_count: usize,
}

impl DeepView for TensorStorageRange {
    type V = TensorStorageRange;

    open spec fn deep_view(&self) -> TensorStorageRange {
        *self
    }
}

impl PlainValue for TensorStorageRange {
    fn duplicate(&self) -> (copy: Self) {
        *self
    }

    fn same(&self, other: &Self) -> (equal: bool) {
        *self == *other
    }
}

/// A range of a tensor with the allocations that it is written to.
#[derive(Debug, PartialEq, Eq)]
pub struct VulkanDistributedRangeLoad {
    pub range: TensorStorageRange,
    pub allocation_indices: Vec<usize>,
}

/// The model of [`VulkanDistributedRangeLoad`].
pub struct VulkanDistributedRangeLoadModel {
    pub range: TensorStorageRange,
    pub allocation_indices: Seq<usize>,
}

impl DeepView for VulkanDistributedRangeLoad {
    type V = VulkanDistributedRangeLoadModel;

    open spec fn deep_view(&self) -> VulkanDistributedRangeLoadModel {
        VulkanDistributedRangeLoadModel {
            range: self.range.deep_view(),
            allocation_indices: self.allocation_indices.deep_view(),
        }
    }
}

impl Clone for VulkanDistributedRangeLoad {
    fn clone(&self) -> (copy: Self)
        ensures
            copy.deep_view() == self.deep_view(),
    {
        self.duplicate()
    }
}

impl PlainValue for VulkanDistributedRangeLoad {
    fn duplicate(&self) -> (copy: Self) {
        VulkanDistributedRangeLoad {
            range: self.range.duplicate(),
            allocation_indices: self.allocation_indices.duplicate(),
        }
    }

    fn same(&self, other: &Self) -> (equal: bool) {
        self.range.same(&other.range)
            && self.allocation_indices.same(&other.allocation_indices)
    }
}

/// A tensor with the ranges that are read from it.
#[derive(Debug, PartialEq, Eq)]
pub struct VulkanDistributedTensorLoad {
    pub tensor: String,
    pub ranges: Vec<VulkanDistributedRangeLoad>,
}

/// The model of [`VulkanDistributedTensorLoad`].
pub struct VulkanDistributedTensorLoadModel {
    pub tensor: Seq<char>,
    pub ranges: Seq<VulkanDistributedRangeLoadModel>,
}

impl DeepView for VulkanDistributedTensorLoad {
    type V = VulkanDistributedTensorLoadModel;

    open spec fn deep_view(&self) -> VulkanDistributedTensorLoadModel {
        VulkanDistributedTensorLoadModel {
            tensor: self.tensor.deep_view(),
            ranges: self.ranges.deep_view(),
        }
    }
}

impl Clone for VulkanDistributedTensorLoad {
    fn clone(&self) -> (copy: Self)
        ensures
            copy.deep_view() == self.deep_view(),
    {
        self.duplicate()
    }
}

impl PlainValue for VulkanDistributedTensorLoad {
    fn duplicate(&self) -> (copy: Self) {
        VulkanDistributedTensorLoad {
            tensor: self.tensor.duplicate(),
            ranges: self.ranges.duplicate(),
        }
    }

    fn same(&self, other: &Self) -> (equal: bool) {
        self.tensor.same(&other.tensor)
            && self.ranges.same(&other.ranges)
    }
}

/// What reading the ranges of a tensor gave.
#[derive(Debug, PartialEq, Eq)]
pub struct VulkanDistributedTensorRead {
    pub byte_count: usize,
    pub source_file: String,
    pub payloads: Vec<Vec<u8>>,
}

/// The model of [`VulkanDistributedTensorRead`].
pub struct VulkanDistributedTensorReadModel {
    pub byte_count: usize,
    pub source_file: Seq<char>,
    pub payloads: Seq<Seq<u8>>,
}

impl DeepView for VulkanDistributedTensorRead {
    type V = VulkanDistributedTensorReadModel;

    open spec fn deep_view(&self) -> VulkanDistributedTensorReadModel {
        VulkanDistributedTensorReadModel {
            byte_count: self.byte_count.deep_view(),
            source_file: self.source_file.deep_view(),
            payloads: self.payloads.deep_view(),
        }
    }
}

impl Clone for VulkanDistributedTensorRead {
    fn clone(&self) -> (copy: Self)
        ensures
            copy.deep_view() == self.deep_view(),
    {
        self.duplicate()
    }
}

impl PlainValue for VulkanDistributedTensorRead {
    fn duplicate(&self) -> (copy: Self) {
        VulkanDistributedTensorRead {
            byte_count: self.byte_count.duplicate(),
            source_file: self.source_file.duplicate(),
            payloads: self.payloads.duplicate(),
        }
    }

    fn same(&self, other: &Self) -> (equal: bool) {
        self.byte_count.same(&other.byte_count)
            && self.source_file.same(&other.source_file)
            && self.payloads.same(&other.payloads)
    }
}

/// What loading parameters did.
#[derive(Clone, Copy, Debug, PartialEq, Eq, Structural)]
pub struct VulkanDistributedParameterLoadReport {
    pub tensor_count: usize,
    pub source_file_count: usize,
    pub allocation_count: usize,
    pub write_count: usize,
    pub total_bytes_read: usize,
    pub total_bytes_written: usize,
}

impl DeepView for VulkanDistributedParameterLoadReport {
    type V = VulkanDistributedParameterLoadReport;

    open spec fn deep_view(&self) -> VulkanDistributedParameterLoadReport {
        *self
    }
}

impl PlainValue for VulkanDistributedParameterLoadReport {
    fn duplicate(&self) -> (copy: Self) {
        *self
    }

    fn same(&self, other: &Self) -> (equal: bool) {
        *self == *other
    }
}

/// The identity of bytes that a pool keeps resident.
#[derive(Debug, PartialEq, Eq)]
pub struct VulkanResidentBufferPoolKey {
    pub namespace: String,
    pub device_id: String,
    pub tensor: String,
    pub content_identity: String,
    pub byte_offset: usize,
    pub byte_count: usize,
}

/// The model of [`VulkanResidentBufferPoolKey`].
pub struct VulkanResidentBufferPoolKeyModel {
    pub namespace: Seq<char>,
    pub device_id: Seq<char>,
    pub tensor: Seq<char>,
    pub content_identity: Seq<char>,
    pub byte_offset: usize,
    pub byte_count: usize,
}

impl DeepView for VulkanResidentBufferPoolKey {
    type V = VulkanResidentBufferPoolKeyModel;

    open spec fn deep_view(&self) -> VulkanResidentBufferPoolKeyModel {
        VulkanResidentBufferPoolKeyModel {
            namespace: self.namespace.deep_view(),
            device_id: self.device_id.deep_view(),
            tensor: self.tensor.deep_view(),
            content_identity: self.content_identity.deep_view(),
            byte_offset: self.byte_offset.deep_view(),
            byte_count: self.byte_count.deep_view(),
        }
    }
}

impl Clone for VulkanResidentBufferPoolKey {
    fn clone(&self) -> (copy: Self)
        ensures
            copy.deep_view() == self.deep_view(),
    {
        self.duplicate()
    }
}

impl PlainValue for VulkanResidentBufferPoolKey {
    fn duplicate(&self) -> (copy: Self) {
        VulkanResidentBufferPoolKey {
            namespace: self.namespace.duplicate(),
            device_id: self.device_id.duplicate(),
            tensor: self.tensor.duplicate(),
            content_identity: self.content_identity.duplicate(),
            byte_offset: self.byte_offset.duplicate(),
            byte_count: self.byte_count.duplicate(),
        }
    }

    fn same(&self, other: &Self) -> (equal: bool) {
        self.namespace.same(&other.namespace)
            && self.device_id.same(&other.device_id)
            && self.tensor.same(&other.tensor)
            && self.content_identity.same(&other.content_identity)
            && self.byte_offset.same(&other.byte_offset)
            && self.byte_count.same(&other.byte_count)
    }
}

/// Bytes that a pool is given to keep resident.
#[derive(Debug, PartialEq, Eq)]
pub struct VulkanResidentBufferPoolAllocation {
    pub key: VulkanResidentBufferPoolKey,
    pub buffer: VulkanResidentBuffer,
    pub byte_offset: usize,
    pub byte_count: usize,
}

/// The model of [`VulkanResidentBufferPoolAllocation`].
pub struct VulkanResidentBufferPoolAllocationModel {
    pub key: VulkanResidentBufferPoolKeyModel,
    pub buffer: VulkanResidentBuffer,
    pub byte_offset: usize,
    pub byte_count: usize,
}

impl DeepView for VulkanResidentBufferPoolAllocation {
    type V = VulkanResidentBufferPoolAllocationModel;

    open spec fn deep_view(&self) -> VulkanResidentBufferPoolAllocationModel {
        VulkanResidentBufferPoolAllocationModel {
            key: self.key.deep_view(),
            buffer: self.buffer.deep_view(),
            byte_offset: self.byte_offset.deep_view(),
            byte_count: self.byte_count.deep_view(),
        }
    }
}

impl Clone for VulkanResidentBufferPoolAllocation {
    fn clone(&self) -> (copy: Self)
        ensures
            copy.deep_view() == self.deep_view(),
    {
        self.duplicate()
    }
}

impl PlainValue for VulkanResidentBufferPoolAllocation {
    fn duplicate(&self) -> (copy: Self) {
        VulkanResidentBufferPoolAllocation {
            key: self.key.duplicate(),
            buffer: self.buffer.duplicate(),
            byte_offset: self.byte_offset.duplicate(),
            byte_count: self.byte_count.duplicate(),
        }
    }

    fn same(&self, other: &Self) -> (equal: bool) {
        self.key.same(&other.key)
            && self.buffer.same(&other.buffer)
            && self.byte_offset.same(&other.byte_offset)
            && self.byte_count.same(&other.byte_count)
    }
}

/// The parameter bytes of a plan with the buffers that hold them.
#[derive(Debug, PartialEq, Eq)]
pub struct VulkanDistributedParameterBuffers {
    pub plan: VulkanDistributedParameterAllocationPlan,
    pub buffers: Vec<VulkanDistributedParameterBufferAllocation>,
    pub total_byte_capacity: usize,
}

/// The allocation holds a fragment of a tensor on a device.
pub open spec fn holds_fragment(
    allocation: VulkanDistributedParameterAllocationModel,
    device_id: Seq<char>,
    tensor: Seq<char>,
    byte_offset: usize,
    byte_count: usize,
) -> bool {
    &&& allocation.device_id == device_id
    &&& allocation.tensor == tensor
    &&& byte_count > 0
    &&& end_of(allocation) <= usize::MAX
    &&& allocation.byte_offset <= byte_offset
    &&& byte_offset + byte_count <= end_of(allocation)
}

impl VulkanDistributedParameterAllocation {
    /// Whether the allocation holds a fragment of a tensor on a device.
    pub fn contains_fragment(
        &self,
        device_id: &str,
        tensor: &str,
        byte_offset: usize,
        byte_count: usize,
    ) -> (result: bool)
        ensures
            result == holds_fragment(
                self.deep_view(),
                device_id@,
                tensor@,
                byte_offset,
                byte_count,
            ),
    {
        if self.device_id != device_id.to_owned() || self.tensor != tensor.to_owned() || byte_count
            == 0 {
            return false;
        }
        match self.byte_offset.checked_add(self.byte_count) {
            None => false,
            Some(allocation_end) => match byte_offset.checked_add(byte_count) {
                None => false,
                Some(fragment_end) => byte_offset >= self.byte_offset && fragment_end
                    <= allocation_end,
            },
        }
    }
}

/// The buffer holds a fragment of a tensor on a device.
pub open spec fn buffer_holds(
    device_id: Seq<char>,
    tensor: Seq<char>,
    byte_offset: usize,
    byte_count: usize,
) -> spec_fn(VulkanDistributedParameterBufferAllocationModel) -> bool {
    |buffer: VulkanDistributedParameterBufferAllocationModel|
        holds_fragment(buffer.allocation, device_id, tensor, byte_offset, byte_count)
}

impl VulkanDistributedParameterBuffers {
    /// The first buffer that holds a fragment of a tensor on a device.
    pub fn parameter_buffer(
        &self,
        device_id: &str,
        tensor: &str,
        byte_offset: usize,
        byte_count: usize,
    ) -> (found: Option<&VulkanDistributedParameterBufferAllocation>)
        ensures
            match found {
                Some(buffer) => find_from(
                    self.buffers.deep_view(),
                    0,
                    buffer_holds(device_id@, tensor@, byte_offset, byte_count),
                ) == Some(buffer.deep_view()),
                None => find_from(
                    self.buffers.deep_view(),
                    0,
                    buffer_holds(device_id@, tensor@, byte_offset, byte_count),
                ) is None,
            },
    {
        let ghost all = self.buffers.deep_view();
        let ghost condition = buffer_holds(device_id@, tensor@, byte_offset, byte_count);
        for index in 0..self.buffers.len()
            invariant
                all == self.buffers.deep_view(),
                condition == buffer_holds(device_id@, tensor@, byte_offset, byte_count),
                find_from(all, 0, condition) == find_from(all, index as nat, condition),
        {
            assert(all[index as int] == self.buffers@[index as int].deep_view());
            if self.buffers[index].allocation.contains_fragment(
                device_id,
                tensor,
                byte_offset,
                byte_count,
            ) {
                return Some(&self.buffers[index]);
            }
        }
        None
    }
}

/// The end of a range, or the last number where it lies beyond.
pub open spec fn saturated_end(byte_offset: usize, byte_count: usize) -> nat {
    if byte_offset + byte_count > usize::MAX {
        usize::MAX as nat
    } else {
        (byte_offset + byte_count) as nat
    }
}

/// The binding of a fragment of resident parameter bytes, or the text of the
/// error.
pub open spec fn fragment_binding(
    resident: VulkanDistributedParameterBufferAllocationModel,
    binding: u32,
    byte_offset: usize,
    byte_count: usize,
) -> Result<VulkanResidentKernelBufferBinding, Seq<char>> {
    let allocation = resident.allocation;
    if !holds_fragment(
        allocation,
        allocation.device_id,
        allocation.tensor,
        byte_offset,
        byte_count,
    ) {
        Err(
            "distributed parameter fragment "@ + decimal_text(byte_offset as nat) + ".."@
                + decimal_text(saturated_end(byte_offset, byte_count)) + " is outside tensor "@
                + debug_text(allocation.tensor) + " allocation "@ + decimal_text(
                allocation.byte_offset as nat,
            ) + ".."@ + decimal_text(saturated_end(allocation.byte_offset, allocation.byte_count))
                + " on "@ + debug_text(allocation.device_id),
        )
    } else if resident.byte_offset + (byte_offset - allocation.byte_offset) > usize::MAX {
        Err("distributed parameter resident offset overflowed"@)
    } else {
        Ok(
            VulkanResidentKernelBufferBinding {
                binding,
                buffer: resident.buffer,
                byte_offset: (resident.byte_offset + (byte_offset - allocation.byte_offset)) as usize,
                byte_count,
                access: crate::resident::VulkanResidentKernelBufferAccess::ReadWrite,
            },
        )
    }
}

impl VulkanDistributedParameterBufferAllocation {
    /// Binds all the bytes of the allocation.
    pub fn kernel_binding(&self, binding: u32) -> (result: VulkanResidentKernelBufferBinding)
        ensures
            result == (VulkanResidentKernelBufferBinding {
                binding,
                buffer: self.buffer,
                byte_offset: self.byte_offset,
                byte_count: self.allocation.byte_count,
                access: crate::resident::VulkanResidentKernelBufferAccess::ReadWrite,
            }),
    {
        VulkanResidentKernelBufferBinding::new(
            binding,
            &self.buffer,
            self.allocation.byte_count,
        ).with_byte_offset(self.byte_offset)
    }

    /// Binds a fragment of the bytes of the allocation.
    pub fn kernel_binding_for_fragment(
        &self,
        binding: u32,
        byte_offset: usize,
        byte_count: usize,
    ) -> (outcome: Result<VulkanResidentKernelBufferBinding, VulkanDistributedParameterBufferError>)
        ensures
            match outcome {
                Ok(bound) => fragment_binding(self.deep_view(), binding, byte_offset, byte_count)
                    == Ok::<VulkanResidentKernelBufferBinding, Seq<char>>(bound),
                Err(error) => fragment_binding(self.deep_view(), binding, byte_offset, byte_count)
                    == Err::<VulkanResidentKernelBufferBinding, Seq<char>>(error.0@),
            },
    {
        if !self.allocation.contains_fragment(
            self.allocation.device_id.as_str(),
            self.allocation.tensor.as_str(),
            byte_offset,
            byte_count,
        ) {
            return Err(
                VulkanDistributedParameterBufferError(
                    join12(
                        "distributed parameter fragment ",
                        decimal(byte_offset).as_str(),
                        "..",
                        decimal(byte_offset.saturating_add(byte_count)).as_str(),
                        " is outside tensor ",
                        quoted(self.allocation.tensor.as_str()).as_str(),
                        " allocation ",
                        decimal(self.allocation.byte_offset).as_str(),
                        "..",
                        decimal(
                            self.allocation.byte_offset.saturating_add(self.allocation.byte_count),
                        ).as_str(),
                        " on ",
                        quoted(self.allocation.device_id.as_str()).as_str(),
                    ),
                ),
            );
        }
        let relative_byte_offset: usize = byte_offset - self.allocation.byte_offset;
        match self.byte_offset.checked_add(relative_byte_offset) {
            None => Err(
                VulkanDistributedParameterBufferError(
                    "distributed parameter resident offset overflowed".to_owned(),
                ),
            ),
            Some(resident_byte_offset) => Ok(
                VulkanResidentKernelBufferBinding::new(
                    binding,
                    &self.buffer,
                    byte_count,
                ).with_byte_offset(resident_byte_offset),
            ),
        }
    }
}

/// The ranges of every tensor with the allocations that hold them.
pub type TensorRangesModel = Map<Seq<char>, Map<(usize, usize), Seq<usize>>>;

/// The ranges of the tensors of allocations.
pub open spec fn ranges_to_load(
    allocations: Seq<VulkanDistributedParameterAllocationModel>,
) -> TensorRangesModel
    decreases allocations.len(),
{
    if allocations.len() == 0 {
        Map::empty()
    } else {
        let found = ranges_to_load(allocations.drop_last());
        let last = allocations.last();
        let range = (last.byte_offset, last.byte_count);
        let ranges = if found.contains_key(last.tensor) {
            found[last.tensor]
        } else {
            Map::empty()
        };
        let indices = if ranges.contains_key(range) {
            ranges[range]
        } else {
            Seq::empty()
        };
        found.insert(
            last.tensor,
            ranges.insert(range, indices.push((allocations.len() - 1) as usize)),
        )
    }
}

/// The load of a range.
pub open spec fn range_load(
    entry: ((usize, usize), Seq<usize>),
) -> VulkanDistributedRangeLoadModel {
    VulkanDistributedRangeLoadModel {
        range: TensorStorageRange { byte_offset: entry.0.0, byte_count: entry.0.1 },
        allocation_indices: entry.1,
    }
}

/// The load of a tensor.
pub open spec fn tensor_load(
    entry: (Seq<char>, Map<(usize, usize), Seq<usize>>),
) -> VulkanDistributedTensorLoadModel {
    VulkanDistributedTensorLoadModel {
        tensor: entry.0,
        ranges: ordered_listing::<(usize, usize), Seq<usize>>(entry.1).map_values(
            |range: ((usize, usize), Seq<usize>)| range_load(range),
        ),
    }
}

/// What is read and written to load allocations: the tensors by name, and their
/// ranges by offset and count.
pub open spec fn load_schedule(allocations: Seq<VulkanDistributedParameterAllocationModel>) -> Seq<
    VulkanDistributedTensorLoadModel,
> {
    ordered_listing::<String, Map<(usize, usize), Seq<usize>>>(
        ranges_to_load(allocations),
    ).map_values(|entry: (Seq<char>, Map<(usize, usize), Seq<usize>>)| tensor_load(entry))
}

fn list_range_loads(ranges: &OrderedMap<(usize, usize), Vec<usize>>) -> (loads: Vec<
    VulkanDistributedRangeLoad,
>)
    ensures
        loads.deep_view() == ranges.listing().map_values(
            |range: ((usize, usize), Seq<usize>)| range_load(range),
        ),
{
    let ghost expected = ranges.listing().map_values(
        |range: ((usize, usize), Seq<usize>)| range_load(range),
    );
    let count: usize = ranges.len();
    let mut loads: Vec<VulkanDistributedRangeLoad> = Vec::new();
    for index in 0..count
        invariant
            count == ranges.listing().len(),
            expected.len() == count,
            forall|i: int|
                0 <= i < count ==> #[trigger] expected[i] == range_load(ranges.listing()[i]),
            loads.deep_view() == expected.take(index as int),
    {
        let range = ranges.key_at(index);
        append(
            &mut loads,
            VulkanDistributedRangeLoad {
                range: TensorStorageRange { byte_offset: range.0, byte_count: range.1 },
                allocation_indices: ranges.value_at(index).duplicate(),
            },
        );
        assert(expected.take(index as int + 1) =~= expected.take(index as int).push(
            expected[index as int],
        ));
    }
    assert(expected.take(expected.len() as int) =~= expected);
    loads
}

impl VulkanDistributedParameterAllocationPlan {
    /// What is read and written to load the plan.
    pub fn load_schedule(&self) -> (loads: Vec<VulkanDistributedTensorLoad>)
        ensures
            loads.deep_view() == load_schedule(self.deep_view().allocations),
    {
        let ghost all = self.deep_view().allocations;
        let mut found: OrderedMap<String, OrderedMap<(usize, usize), Vec<usize>>> =
            OrderedMap::new();
        for index in 0..self.allocations.len()
            invariant
                all == self.deep_view().allocations,
                found.deep_view() == ranges_to_load(all.take(index as int)),
        {
            assert(all.take(index as int + 1).drop_last() =~= all.take(index as int));
            let allocation = &self.allocations[index];
            assert(all[index as int] == allocation.deep_view());
            let range: (usize, usize) = (allocation.byte_offset, allocation.byte_count);
            let mut ranges: OrderedMap<(usize, usize), Vec<usize>> = match found.get(
                &allocation.tensor,
            ) {
                Some(ranges) => ranges.duplicate(),
                None => OrderedMap::new(),
            };
            let mut indices: Vec<usize> = match ranges.get(&range) {
                Some(indices) => indices.duplicate(),
                None => Vec::new(),
            };
            assert(indices.deep_view() =~= (if ranges.deep_view().contains_key(range) {
                ranges.deep_view()[range]
            } else {
                Seq::empty()
            }));
            append(&mut indices, index);
            ranges.insert(range, indices);
            found.insert(allocation.tensor.clone(), ranges);
        }
        assert(all.take(all.len() as int) =~= all);
        let ghost expected = load_schedule(all);
        let count: usize = found.len();
        let mut loads: Vec<VulkanDistributedTensorLoad> = Vec::new();
        for index in 0..count
            invariant
                count == found.listing().len(),
                expected.len() == count,
                forall|i: int|
                    0 <= i < count ==> #[trigger] expected[i] == tensor_load(found.listing()[i]),
                loads.deep_view() == expected.take(index as int),
        {
            append(
                &mut loads,
                VulkanDistributedTensorLoad {
                    tensor: found.key_at(index).clone(),
                    ranges: list_range_loads(found.value_at(index)),
                },
            );
            assert(expected.take(index as int + 1) =~= expected.take(index as int).push(
                expected[index as int],
            ));
        }
        assert(expected.take(expected.len() as int) =~= expected);
        loads
    }
}

/// What loading has done so far.
pub struct LoadProgressModel {
    pub bytes_read: usize,
    pub bytes_written: usize,
    pub writes: usize,
    pub files: Set<Seq<char>>,
}

/// Loading that has done nothing.
pub open spec fn nothing_loaded() -> LoadProgressModel {
    LoadProgressModel { bytes_read: 0, bytes_written: 0, writes: 0, files: Set::empty() }
}

/// Loading after a tensor was read.
pub open spec fn after_read(
    progress: LoadProgressModel,
    read: VulkanDistributedTensorReadModel,
) -> Result<LoadProgressModel, Seq<char>> {
    if progress.bytes_read + read.byte_count > usize::MAX {
        Err("distributed parameter read byte count overflowed"@)
    } else {
        Ok(
            LoadProgressModel {
                bytes_read: (progress.bytes_read + read.byte_count) as usize,
                files: progress.files.insert(read.source_file),
                ..progress
            },
        )
    }
}

/// Loading after bytes were written once.
pub open spec fn after_write(progress: LoadProgressModel, bytes: nat) -> Result<
    LoadProgressModel,
    Seq<char>,
> {
    if progress.bytes_written + bytes > usize::MAX {
        Err("distributed parameter written byte count overflowed"@)
    } else if progress.writes + 1 > usize::MAX {
        Err("distributed parameter write count overflowed"@)
    } else {
        Ok(
            LoadProgressModel {
                bytes_written: (progress.bytes_written + bytes) as usize,
                writes: (progress.writes + 1) as usize,
                ..progress
            },
        )
    }
}

/// Loading after bytes were written a number of times.
pub open spec fn after_writes(
    start: Result<LoadProgressModel, Seq<char>>,
    bytes: nat,
    times: nat,
) -> Result<LoadProgressModel, Seq<char>>
    decreases times,
{
    if times == 0 {
        start
    } else {
        match after_writes(start, bytes, (times - 1) as nat) {
            Err(message) => Err(message),
            Ok(progress) => after_write(progress, bytes),
        }
    }
}

/// Loading after the first ranges of a tensor were written, each to all of its
/// allocations.
pub open spec fn after_ranges(
    start: Result<LoadProgressModel, Seq<char>>,
    load: VulkanDistributedTensorLoadModel,
    read: VulkanDistributedTensorReadModel,
    count: nat,
) -> Result<LoadProgressModel, Seq<char>>
    decreases count,
{
    if count == 0 {
        start
    } else {
        after_writes(
            after_ranges(start, load, read, (count - 1) as nat),
            read.payloads[count - 1].len(),
            load.ranges[count - 1].allocation_indices.len(),
        )
    }
}

/// The number of ranges of a tensor that were read and are written.
pub open spec fn written_ranges(
    load: VulkanDistributedTensorLoadModel,
    read: VulkanDistributedTensorReadModel,
) -> nat {
    if load.ranges.len() <= read.payloads.len() {
        load.ranges.len()
    } else {
        read.payloads.len()
    }
}

/// Loading after a tensor was read and written.
pub open spec fn after_tensor(
    progress: LoadProgressModel,
    load: VulkanDistributedTensorLoadModel,
    read: VulkanDistributedTensorReadModel,
) -> Result<LoadProgressModel, Seq<char>> {
    match after_read(progress, read) {
        Err(message) => Err(message),
        Ok(next) => after_ranges(
            Ok::<LoadProgressModel, Seq<char>>(next),
            load,
            read,
            written_ranges(load, read),
        ),
    }
}

/// Loading after as many tensors of a schedule as were read.
pub open spec fn loaded(
    loads: Seq<VulkanDistributedTensorLoadModel>,
    reads: Seq<VulkanDistributedTensorReadModel>,
) -> Result<LoadProgressModel, Seq<char>>
    decreases reads.len(),
{
    if reads.len() == 0 || loads.len() < reads.len() {
        Ok(nothing_loaded())
    } else {
        match loaded(loads, reads.drop_last()) {
            Err(message) => Err(message),
            Ok(progress) => after_tensor(progress, loads[reads.len() - 1], reads.last()),
        }
    }
}

/// The report on loading a plan.
pub open spec fn load_report(
    plan: VulkanDistributedParameterAllocationPlanModel,
    progress: LoadProgressModel,
) -> VulkanDistributedParameterLoadReport {
    VulkanDistributedParameterLoadReport {
        tensor_count: plan.tensor_count,
        source_file_count: progress.files.len() as usize,
        allocation_count: plan.allocation_count,
        write_count: progress.writes,
        total_bytes_read: progress.bytes_read,
        total_bytes_written: progress.bytes_written,
    }
}

/// What loading has done so far.
pub(crate) struct LoadProgress {
    bytes_read: usize,
    bytes_written: usize,
    writes: usize,
    files: OrderedSet<String>,
}

impl DeepView for LoadProgress {
    type V = LoadProgressModel;

    closed spec fn deep_view(&self) -> LoadProgressModel {
        LoadProgressModel {
            bytes_read: self.bytes_read,
            bytes_written: self.bytes_written,
            writes: self.writes,
            files: self.files.deep_view(),
        }
    }
}

impl LoadProgress {
    pub(crate) fn new() -> (progress: Self)
        ensures
            progress.deep_view() == nothing_loaded(),
    {
        LoadProgress { bytes_read: 0, bytes_written: 0, writes: 0, files: OrderedSet::new() }
    }

    pub(crate) fn report(&self, plan: &VulkanDistributedParameterAllocationPlan) -> (report:
        VulkanDistributedParameterLoadReport)
        ensures
            report == load_report(plan.deep_view(), self.deep_view()),
    {
        VulkanDistributedParameterLoadReport {
            tensor_count: plan.tensor_count,
            source_file_count: self.files.len(),
            allocation_count: plan.allocation_count,
            write_count: self.writes,
            total_bytes_read: self.bytes_read,
            total_bytes_written: self.bytes_written,
        }
    }

    pub(crate) fn note_read(&mut self, read: &VulkanDistributedTensorRead) -> (outcome: Result<
        (),
        VulkanDistributedParameterLoadError,
    >)
        ensures
            match outcome {
                Ok(_) => after_read(old(self).deep_view(), read.deep_view()) == Ok::<
                    LoadProgressModel,
                    Seq<char>,
                >(final(self).deep_view()),
                Err(error) => after_read(old(self).deep_view(), read.deep_view()) == Err::<
                    LoadProgressModel,
                    Seq<char>,
                >(error.0@),
            },
    {
        match self.bytes_read.checked_add(read.byte_count) {
            None => Err(
                VulkanDistributedParameterLoadError(
                    "distributed parameter read byte count overflowed".to_owned(),
                ),
            ),
            Some(bytes) => {
                self.bytes_read = bytes;
                self.files.insert(read.source_file.clone());
                Ok(())
            },
        }
    }

    pub(crate) fn note_write(&mut self, bytes: usize) -> (outcome: Result<
        (),
        VulkanDistributedParameterLoadError,
    >)
        ensures
            match outcome {
                Ok(_) => after_write(old(self).deep_view(), bytes as nat) == Ok::<
                    LoadProgressModel,
                    Seq<char>,
                >(final(self).deep_view()),
                Err(error) => after_write(old(self).deep_view(), bytes as nat) == Err::<
                    LoadProgressModel,
                    Seq<char>,
                >(error.0@),
            },
    {
        match self.bytes_written.checked_add(bytes) {
            None => Err(
                VulkanDistributedParameterLoadError(
                    "distributed parameter written byte count overflowed".to_owned(),
                ),
            ),
            Some(written) => match self.writes.checked_add(1) {
                None => Err(
                    VulkanDistributedParameterLoadError(
                        "distributed parameter write count overflowed".to_owned(),
                    ),
                ),
                Some(writes) => {
                    self.bytes_written = written;
                    self.writes = writes;
                    Ok(())
                },
            },
        }
    }
}

/// The ranges of a load.
pub open spec fn ranges_of(load: VulkanDistributedTensorLoadModel) -> Seq<TensorStorageRange> {
    Seq::new(load.ranges.len(), |i: int| load.ranges[i].range)
}

impl VulkanDistributedTensorLoad {
    /// The ranges that are read from the tensor.
    pub fn storage_ranges(&self) -> (ranges: Vec<TensorStorageRange>)
        ensures
            ranges@ == ranges_of(self.deep_view()),
    {
        let mut ranges: Vec<TensorStorageRange> = Vec::new();
        for index in 0..self.ranges.len()
            invariant
                ranges.len() == index,
                forall|i: int| 0 <= i < index ==> #[trigger] ranges@[i] == self.ranges@[i].range,
        {
            ranges.push(self.ranges[index].range);
        }
        assert(ranges@ =~= ranges_of(self.deep_view()));
        ranges
    }
}

/// Every index of a schedule names an allocation of its plan.
pub open spec fn schedule_is_sound(
    plan: VulkanDistributedParameterAllocationPlanModel,
    loads: Seq<VulkanDistributedTensorLoadModel>,
) -> bool {
    forall|i: int, j: int, k: int|
        #![trigger loads[i].ranges[j].allocation_indices[k]]
        0 <= i < loads.len() && 0 <= j < loads[i].ranges.len() && 0 <= k
            < loads[i].ranges[j].allocation_indices.len()
            ==> loads[i].ranges[j].allocation_indices[k] < plan.allocations.len()
}

/// The ranges to load name every allocation once, in the list of its own tensor and
/// range, and nothing else.
pub proof fn lemma_ranges_to_load(allocations: Seq<VulkanDistributedParameterAllocationModel>)
    requires
        allocations.len() <= usize::MAX,
    ensures
        ranges_to_load(allocations).dom().finite(),
        forall|tensor: Seq<char>| #[trigger]
            ranges_to_load(allocations).contains_key(tensor) ==> ranges_to_load(
                allocations,
            )[tensor].dom().finite(),
        forall|tensor: Seq<char>, range: (usize, usize), k: int|
            #![trigger ranges_to_load(allocations)[tensor][range][k]]
            ranges_to_load(allocations).contains_key(tensor) && ranges_to_load(
                allocations,
            )[tensor].contains_key(range) && 0 <= k < ranges_to_load(
                allocations,
            )[tensor][range].len() ==> is_listed(
                allocations,
                tensor,
                range,
                ranges_to_load(allocations)[tensor][range][k],
            ),
        forall|i: int|
            0 <= i < allocations.len() ==> lists_index(
                ranges_to_load(allocations),
                (#[trigger] allocations[i]).tensor,
                (allocations[i].byte_offset, allocations[i].byte_count),
                i as usize,
            ),
        forall|tensor: Seq<char>, range: (usize, usize)|
            #![trigger ranges_to_load(allocations)[tensor][range]]
            ranges_to_load(allocations).contains_key(tensor) && ranges_to_load(
                allocations,
            )[tensor].contains_key(range) ==> ranges_to_load(
                allocations,
            )[tensor][range].no_duplicates(),
    decreases allocations.len(),
{
    if allocations.len() > 0 {
        let rest = allocations.drop_last();
        lemma_ranges_to_load(rest);
        let before = ranges_to_load(rest);
        let after = ranges_to_load(allocations);
        let last = allocations.last();
        let own = (last.byte_offset, last.byte_count);
        assert forall|tensor: Seq<char>, range: (usize, usize)|
            #![trigger after[tensor][range]]
            after.contains_key(tensor) && after[tensor].contains_key(range) implies (if tensor
            == last.tensor && range == own {
            after[tensor][range] == listed_indices(before, tensor, range).push(
                (allocations.len() - 1) as usize,
            )
        } else {
            before.contains_key(tensor) && before[tensor].contains_key(range)
                && after[tensor][range] == before[tensor][range]
        }) by {}
        assert forall|tensor: Seq<char>, range: (usize, usize), k: int|
            #![trigger after[tensor][range][k]]
            after.contains_key(tensor) && after[tensor].contains_key(range) && 0 <= k
                < after[tensor][range].len() implies is_listed(
            allocations,
            tensor,
            range,
            after[tensor][range][k],
        ) by {
            let indices = after[tensor][range];
            if tensor == last.tensor && range == own {
                let earlier = listed_indices(before, tensor, range);
                if k < earlier.len() {
                    assert(indices[k] == earlier[k]);
                    assert(before[tensor][range][k] == indices[k]);
                    assert(is_listed(rest, tensor, range, indices[k]));
                }
            } else {
                assert(before[tensor][range][k] == indices[k]);
                assert(is_listed(rest, tensor, range, indices[k]));
            }
        }
        assert forall|tensor: Seq<char>, range: (usize, usize)|
            #![trigger after[tensor][range]]
            after.contains_key(tensor) && after[tensor].contains_key(
                range,
            ) implies after[tensor][range].no_duplicates() by {
            let indices = after[tensor][range];
            if tensor == last.tensor && range == own {
                let earlier = listed_indices(before, tensor, range);
                assert(earlier.no_duplicates());
                assert forall|k: int| 0 <= k < earlier.len() implies #[trigger] earlier[k]
                    < rest.len() by {
                    assert(before[tensor][range][k] == earlier[k]);
                    assert(is_listed(rest, tensor, range, earlier[k]));
                }
            } else {
                assert(indices == before[tensor][range]);
            }
        }
        assert forall|i: int| 0 <= i < allocations.len() implies lists_index(
            after,
            (#[trigger] allocations[i]).tensor,
            (allocations[i].byte_offset, allocations[i].byte_count),
            i as usize,
        ) by {
            let tensor = allocations[i].tensor;
            let range = (allocations[i].byte_offset, allocations[i].byte_count);
            if i < rest.len() {
                assert(rest[i] == allocations[i]);
                assert(lists_index(before, tensor, range, i as usize));
                let k = choose|k: int|
                    0 <= k < before[tensor][range].len() && before[tensor][range][k] == i as usize;
                assert(after[tensor][range][k] == i as usize);
            } else {
                let indices = after[tensor][range];
                assert(indices[indices.len() - 1] == i as usize);
            }
        }
        assert forall|tensor: Seq<char>| #[trigger]
            after.contains_key(tensor) implies after[tensor].dom().finite() by {
            if tensor != last.tensor {
                assert(before.contains_key(tensor));
            } else if before.contains_key(tensor) {
                assert(before[tensor].dom().finite());
            }
        }
    }
}

/// The index names an allocation of a tensor and a range.
pub open spec fn is_listed(
    allocations: Seq<VulkanDistributedParameterAllocationModel>,
    tensor: Seq<char>,
    range: (usize, usize),
    index: usize,
) -> bool {
    index < allocations.len() && allocations[index as int].tensor == tensor
        && allocations[index as int].byte_offset == range.0 && allocations[index as int].byte_count
        == range.1
}

/// The indices that are listed for a range of a tensor.
pub open spec fn listed_indices(
    ranges: TensorRangesModel,
    tensor: Seq<char>,
    range: (usize, usize),
) -> Seq<usize> {
    if ranges.contains_key(tensor) && ranges[tensor].contains_key(range) {
        ranges[tensor][range]
    } else {
        Seq::empty()
    }
}

/// The index is listed for a range of a tensor.
pub open spec fn lists_index(
    ranges: TensorRangesModel,
    tensor: Seq<char>,
    range: (usize, usize),
    index: usize,
) -> bool {
    ranges.contains_key(tensor) && ranges[tensor].contains_key(range)
        && ranges[tensor][range].contains(index)
}

/// A load of a schedule serves an allocation: it reads the tensor of the
/// allocation, and writes its range to it.
pub open spec fn serves(
    load: VulkanDistributedTensorLoadModel,
    range: int,
    allocation: VulkanDistributedParameterAllocationModel,
    index: usize,
) -> bool {
    &&& load.tensor == allocation.tensor
    &&& 0 <= range < load.ranges.len()
    &&& load.ranges[range].range.byte_offset == allocation.byte_offset
    &&& load.ranges[range].range.byte_count == allocation.byte_count
    &&& load.ranges[range].allocation_indices.contains(index)
}

/// Some load of a schedule serves an allocation.
pub open spec fn is_served(
    loads: Seq<VulkanDistributedTensorLoadModel>,
    allocation: VulkanDistributedParameterAllocationModel,
    index: usize,
) -> bool {
    exists|load: int, range: int|
        0 <= load < loads.len() && #[trigger] serves(loads[load], range, allocation, index)
}

/// Loading a plan writes every allocation: some load of the schedule reads its
/// tensor and writes its range to it. Every index of the schedule names an
/// allocation of that tensor and range, and no list names one twice.
pub proof fn law_schedules_serve_every_allocation(
    plan: VulkanDistributedParameterAllocationPlanModel,
)
    requires
        plan.allocations.len() <= usize::MAX,
    ensures
        schedule_is_sound(plan, load_schedule(plan.allocations)),
        forall|i: int|
            0 <= i < plan.allocations.len() ==> is_served(
                load_schedule(plan.allocations),
                #[trigger] plan.allocations[i],
                i as usize,
            ),
        forall|i: int, j: int, k: int|
            #![trigger load_schedule(plan.allocations)[i].ranges[j].allocation_indices[k]]
            0 <= i < load_schedule(plan.allocations).len() && 0 <= j < load_schedule(
                plan.allocations,
            )[i].ranges.len() && 0 <= k < load_schedule(
                plan.allocations,
            )[i].ranges[j].allocation_indices.len() ==> serves(
                load_schedule(plan.allocations)[i],
                j,
                plan.allocations[load_schedule(
                    plan.allocations,
                )[i].ranges[j].allocation_indices[k] as int],
                load_schedule(plan.allocations)[i].ranges[j].allocation_indices[k],
            ),
        forall|i: int, j: int|
            #![trigger load_schedule(plan.allocations)[i].ranges[j]]
            0 <= i < load_schedule(plan.allocations).len() && 0 <= j < load_schedule(
                plan.allocations,
            )[i].ranges.len() ==> load_schedule(
                plan.allocations,
            )[i].ranges[j].allocation_indices.no_duplicates(),
{
    let allocations = plan.allocations;
    let found = ranges_to_load(allocations);
    let loads = load_schedule(allocations);
    lemma_ranges_to_load(allocations);
    lemma_ordered_listing_exists::<String, Map<(usize, usize), Seq<usize>>>(found);
    let listing = ordered_listing::<String, Map<(usize, usize), Seq<usize>>>(found);
    assert forall|i: int, j: int|
        #![trigger loads[i].ranges[j]]
        0 <= i < loads.len() && 0 <= j < loads[i].ranges.len() implies ({
        let tensor = loads[i].tensor;
        let range = (loads[i].ranges[j].range.byte_offset, loads[i].ranges[j].range.byte_count);
        found.contains_key(tensor) && found[tensor].contains_key(range)
            && loads[i].ranges[j].allocation_indices == found[tensor][range]
    }) by {
        lemma_listed_at::<String, Map<(usize, usize), Seq<usize>>>(listing, i);
        let ranges = listing[i].1;
        assert(found.contains_key(listing[i].0));
        lemma_ordered_listing_exists::<(usize, usize), Seq<usize>>(ranges);
        let inner = ordered_listing::<(usize, usize), Seq<usize>>(ranges);
        lemma_listed_at::<(usize, usize), Seq<usize>>(inner, j);
    }
    assert forall|i: int, j: int, k: int|
        #![trigger loads[i].ranges[j].allocation_indices[k]]
        0 <= i < loads.len() && 0 <= j < loads[i].ranges.len() && 0 <= k
            < loads[i].ranges[j].allocation_indices.len() implies serves(
        loads[i],
        j,
        allocations[loads[i].ranges[j].allocation_indices[k] as int],
        loads[i].ranges[j].allocation_indices[k],
    ) && loads[i].ranges[j].allocation_indices[k] < allocations.len() by {
        let tensor = loads[i].tensor;
        let range = (loads[i].ranges[j].range.byte_offset, loads[i].ranges[j].range.byte_count);
        let indices = loads[i].ranges[j].allocation_indices;
        assert(found[tensor][range][k] == indices[k]);
        assert(is_listed(allocations, tensor, range, indices[k]));
    }
    assert forall|i: int| 0 <= i < allocations.len() implies is_served(
        loads,
        #[trigger] allocations[i],
        i as usize,
    ) by {
        let tensor = allocations[i].tensor;
        let range = (allocations[i].byte_offset, allocations[i].byte_count);
        assert(lists_index(found, tensor, range, i as usize));
        assert(lists_key(listing, tensor));
        let load = choose|load: int|
            0 <= load < listing.len() && #[trigger] listing[load].0 == tensor;
        lemma_listed_at::<String, Map<(usize, usize), Seq<usize>>>(listing, load);
        lemma_ordered_listing_exists::<(usize, usize), Seq<usize>>(found[tensor]);
        let inner = ordered_listing::<(usize, usize), Seq<usize>>(found[tensor]);
        assert(lists_key(inner, range));
        let place = choose|place: int|
            0 <= place < inner.len() && #[trigger] inner[place].0 == range;
        lemma_listed_at::<(usize, usize), Seq<usize>>(inner, place);
        assert(serves(loads[load], place, allocations[i], i as usize));
    }
}

/// An error in the course of writing stays the error.
pub(crate) proof fn lemma_writes_keep_error(
    start: Result<LoadProgressModel, Seq<char>>,
    bytes: nat,
    done: nat,
    times: nat,
)
    requires
        done <= times,
        after_writes(start, bytes, done) is Err,
    ensures
        after_writes(start, bytes, times) == after_writes(start, bytes, done),
    decreases times - done,
{
    if done < times {
        lemma_writes_keep_error(start, bytes, done, (times - 1) as nat);
    }
}

pub(crate) proof fn lemma_ranges_keep_error(
    start: Result<LoadProgressModel, Seq<char>>,
    load: VulkanDistributedTensorLoadModel,
    read: VulkanDistributedTensorReadModel,
    done: nat,
    count: nat,
)
    requires
        done <= count,
        after_ranges(start, load, read, done) is Err,
    ensures
        after_ranges(start, load, read, count) == after_ranges(start, load, read, done),
    decreases count - done,
{
    if done < count {
        lemma_ranges_keep_error(start, load, read, done, (count - 1) as nat);
        lemma_writes_keep_error(
            after_ranges(start, load, read, (count - 1) as nat),
            read.payloads[count - 1].len(),
            0,
            load.ranges[count - 1].allocation_indices.len(),
        );
    }
}

/// Counting has come to an allocation of a range of what was read.
pub open spec fn counted_up_to(
    progress: LoadProgressModel,
    load: VulkanDistributedTensorLoadModel,
    read: VulkanDistributedTensorReadModel,
    range: int,
    place: int,
) -> bool {
    after_read(progress, read) is Ok && after_writes(
        after_ranges(after_read(progress, read), load, read, range as nat),
        read.payloads[range].len(),
        place as nat,
    ) is Ok
}

fn count_tensor(
    load: &VulkanDistributedTensorLoad,
    read: &VulkanDistributedTensorRead,
    progress: &mut LoadProgress,
) -> (outcome: Result<(), VulkanDistributedParameterLoadError>)
    ensures
        match outcome {
            Ok(_) => after_tensor(old(progress).deep_view(), load.deep_view(), read.deep_view())
                == Ok::<LoadProgressModel, Seq<char>>(final(progress).deep_view()),
            Err(error) => after_tensor(
                old(progress).deep_view(),
                load.deep_view(),
                read.deep_view(),
            ) == Err::<LoadProgressModel, Seq<char>>(error.0@),
        },
{
    let ghost load_model = load.deep_view();
    let ghost read_model = read.deep_view();
    match progress.note_read(read) {
        Err(error) => {
            return Err(error);
        },
        Ok(_) => {},
    }
    let ghost start = Ok::<LoadProgressModel, Seq<char>>(progress.deep_view());
    let ghost expected = after_tensor(old(progress).deep_view(), load_model, read_model);
    let ghost range_count = written_ranges(load_model, read_model);
    let mut range_index: usize = 0;
    while range_index < load.ranges.len() && range_index < read.payloads.len()
        invariant
            load_model == load.deep_view(),
            read_model == read.deep_view(),
            range_count == written_ranges(load_model, read_model),
            range_index <= range_count,
            expected == after_ranges(start, load_model, read_model, range_count),
            expected == after_tensor(old(progress).deep_view(), load_model, read_model),
            after_ranges(start, load_model, read_model, range_index as nat) == Ok::<
                LoadProgressModel,
                Seq<char>,
            >(progress.deep_view()),
        decreases load.ranges.len() - range_index,
    {
        let range = &load.ranges[range_index];
        let payload = &read.payloads[range_index];
        let ghost range_model = load_model.ranges[range_index as int];
        let ghost payload_model = read_model.payloads[range_index as int];
        assert(range_model == range.deep_view());
        assert(payload_model == payload.deep_view());
        let ghost before = after_ranges(start, load_model, read_model, range_index as nat);
        for index in 0..range.allocation_indices.len()
            invariant
                load_model == load.deep_view(),
                read_model == read.deep_view(),
                0 <= range_index < range_count,
                range_count == written_ranges(load_model, read_model),
                range_model == load_model.ranges[range_index as int],
                range_model == range.deep_view(),
                payload_model == read_model.payloads[range_index as int],
                payload_model == payload.deep_view(),
                before == after_ranges(start, load_model, read_model, range_index as nat),
                expected == after_ranges(start, load_model, read_model, range_count),
                expected == after_tensor(old(progress).deep_view(), load_model, read_model),
                after_writes(before, payload_model.len(), index as nat) == Ok::<
                    LoadProgressModel,
                    Seq<char>,
                >(progress.deep_view()),
        {
            match progress.note_write(payload.len()) {
                Err(error) => {
                    proof {
                        lemma_writes_keep_error(
                            before,
                            payload_model.len(),
                            (index + 1) as nat,
                            range_model.allocation_indices.len(),
                        );
                        lemma_ranges_keep_error(
                            start,
                            load_model,
                            read_model,
                            (range_index + 1) as nat,
                            range_count,
                        );
                    }
                    return Err(error);
                },
                Ok(_) => {},
            }
        }
        range_index += 1;
    }
    Ok(())
}

/// The models of reads.
pub open spec fn read_models(reads: Seq<VulkanDistributedTensorRead>) -> Seq<
    VulkanDistributedTensorReadModel,
> {
    Seq::new(reads.len(), |i: int| reads[i].deep_view())
}

/// The report on what was read for a schedule, or the text of the error.
pub open spec fn reported(
    plan: VulkanDistributedParameterAllocationPlanModel,
    reads: Seq<VulkanDistributedTensorReadModel>,
) -> Result<VulkanDistributedParameterLoadReport, Seq<char>> {
    match loaded(load_schedule(plan.allocations), reads) {
        Err(message) => Err(message),
        Ok(progress) => Ok(load_report(plan, progress)),
    }
}

proof fn lemma_loaded_keeps_error(
    loads: Seq<VulkanDistributedTensorLoadModel>,
    reads: Seq<VulkanDistributedTensorReadModel>,
    count: nat,
)
    requires
        count <= reads.len() <= loads.len(),
        loaded(loads, reads.take(count as int)) is Err,
    ensures
        loaded(loads, reads) == loaded(loads, reads.take(count as int)),
    decreases reads.len() - count,
{
    if count < reads.len() {
        assert(reads.take(count as int + 1).drop_last() =~= reads.take(count as int));
        lemma_loaded_keeps_error(loads, reads, count + 1);
    } else {
        assert(reads.take(count as int) =~= reads);
    }
}

impl VulkanDistributedParameterAllocationPlan {
    /// Counts what was read for the schedule of the plan once everything that was read is
    /// written.
    pub fn report_load(&self, reads: &Vec<VulkanDistributedTensorRead>) -> (outcome: Result<
        VulkanDistributedParameterLoadReport,
        VulkanDistributedParameterLoadError,
    >)
        requires
            reads.len() <= load_schedule(self.deep_view().allocations).len(),
        ensures
            match outcome {
                Ok(report) => reported(self.deep_view(), reads.deep_view()) == Ok::<
                    VulkanDistributedParameterLoadReport,
                    Seq<char>,
                >(report),
                Err(error) => reported(self.deep_view(), reads.deep_view()) == Err::<
                    VulkanDistributedParameterLoadReport,
                    Seq<char>,
                >(error.0@),
            },
    {
        let loads = self.load_schedule();
        let ghost schedule = loads.deep_view();
        let ghost all = reads.deep_view();
        let mut progress = LoadProgress::new();
        for index in 0..reads.len()
            invariant
                schedule == loads.deep_view(),
                schedule == load_schedule(self.deep_view().allocations),
                all == reads.deep_view(),
                all.len() == reads.len(),
                reads.len() <= schedule.len(),
                loaded(schedule, all.take(index as int)) == Ok::<LoadProgressModel, Seq<char>>(
                    progress.deep_view(),
                ),
        {
            assert(all.take(index as int + 1).drop_last() =~= all.take(index as int));
            assert(all[index as int] == reads@[index as int].deep_view());
            assert(schedule[index as int] == loads@[index as int].deep_view());
            match count_tensor(&loads[index], &reads[index], &mut progress) {
                Err(error) => {
                    proof {
                        lemma_loaded_keeps_error(schedule, all, (index + 1) as nat);
                    }
                    return Err(error);
                },
                Ok(_) => {},
            }
        }
        assert(all.take(all.len() as int) =~= all);
        Ok(progress.report(self))
    }
}

} // verus!
