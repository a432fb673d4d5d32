//! Replaying the values of timeline semaphores, and ranges of indirect commands.
use vstd::prelude::*;

use crate::errors::VulkanError;
use crate::ordered::{keys_increase, lemma_listed_at, listed_map, lists_key, OrderedMap};
use crate::text::{decimal, decimal_text, join3};
use crate::values::{OrderedKey, PlainValue};

verus! {

/// A timeline semaphore of a logical device.
#[derive(Clone, Copy, Debug, PartialEq, Eq, Structural)]
pub struct VulkanTimelineSemaphoreReplayIdentity {
    pub device_handle: u64,
    pub semaphore_handle: u64,
}

impl DeepView for VulkanTimelineSemaphoreReplayIdentity {
    type V = VulkanTimelineSemaphoreReplayIdentity;

    open spec fn deep_view(&self) -> VulkanTimelineSemaphoreReplayIdentity {
        *self
    }
}

impl PlainValue for VulkanTimelineSemaphoreReplayIdentity {
    fn duplicate(&self) -> (copy: Self) {
        *self
    }

    fn same(&self, other: &Self) -> (equal: bool) {
        *self == *other
    }
}

impl OrderedKey for VulkanTimelineSemaphoreReplayIdentity {
    open spec fn before(left: Self, right: Self) -> bool {
        left.device_handle < right.device_handle || (left.device_handle == right.device_handle
            && left.semaphore_handle < right.semaphore_handle)
    }

    proof fn order_is_irreflexive(value: Self) {
    }

    proof fn order_is_transitive(first: Self, second: Self, third: Self) {
    }

    proof fn order_is_total(left: Self, right: Self) {
    }

    fn precedes(&self, other: &Self) -> (result: bool) {
        self.device_handle < other.device_handle || (self.device_handle == other.device_handle
            && self.semaphore_handle < other.semaphore_handle)
    }
}

/// The next value of every semaphore at some time.
#[derive(Debug, PartialEq, Eq)]
pub struct VulkanTimelineSemaphoreReplayState {
    pub next_values: OrderedMap<VulkanTimelineSemaphoreReplayIdentity, u64>,
}

/// The semaphores and their next values.
pub type NextValues = Map<VulkanTimelineSemaphoreReplayIdentity, u64>;

/// How far the values of semaphores have moved on since they were recorded.
#[derive(Debug, PartialEq, Eq)]
pub struct VulkanTimelineSemaphoreReplayRebase {
    pub offsets: OrderedMap<VulkanTimelineSemaphoreReplayIdentity, u64>,
}

impl Default for VulkanTimelineSemaphoreReplayState {
    fn default() -> (state: Self)
        ensures
            state.next_values.deep_view() == NextValues::empty(),
    {
        VulkanTimelineSemaphoreReplayState { next_values: OrderedMap::new() }
    }
}

/// How far the values have moved on.
pub open spec fn moved_on(recorded: NextValues, current: NextValues) -> NextValues {
    Map::new(
        |identity: VulkanTimelineSemaphoreReplayIdentity| recorded.contains_key(identity),
        |identity: VulkanTimelineSemaphoreReplayIdentity|
            (current[identity] - recorded[identity]) as u64,
    )
}

/// The value of some semaphore has gone back.
pub open spec fn has_regressed(recorded: NextValues, current: NextValues) -> bool {
    exists|identity: VulkanTimelineSemaphoreReplayIdentity| #[trigger]
        recorded.contains_key(identity) && current[identity] < recorded[identity]
}

/// How far recorded values have moved on, or the text of the error.
pub open spec fn rebased(recorded: NextValues, current: NextValues) -> Result<
    NextValues,
    Seq<char>,
> {
    if recorded.dom() != current.dom() {
        Err("timeline semaphore replay topology changed"@)
    } else if has_regressed(recorded, current) {
        Err("timeline semaphore replay value regressed"@)
    } else {
        Ok(moved_on(recorded, current))
    }
}

/// The value with an offset, or the text of the error.
pub open spec fn offset_value(value: u64, offset: u64) -> Result<u64, Seq<char>> {
    if value + offset > u64::MAX {
        Err("timeline semaphore replay value overflowed"@)
    } else {
        Ok((value + offset) as u64)
    }
}

/// Moves a recorded value on.
pub fn offset_timeline_value(value: u64, offset: u64) -> (outcome: Result<u64, VulkanError>)
    ensures
        match outcome {
            Ok(moved) => offset_value(value, offset) == Ok::<u64, Seq<char>>(moved),
            Err(error) => offset_value(value, offset) == Err::<u64, Seq<char>>(error.0@),
        },
{
    match value.checked_add(offset) {
        None => Err(VulkanError("timeline semaphore replay value overflowed".to_owned())),
        Some(moved) => Ok(moved),
    }
}

impl VulkanTimelineSemaphoreReplayState {
    /// Finds how far the values have moved on from this state to another one.
    pub fn rebase_to(&self, current: &Self) -> (outcome: Result<
        VulkanTimelineSemaphoreReplayRebase,
        VulkanError,
    >)
        ensures
            match outcome {
                Ok(rebase) => rebased(self.next_values.deep_view(), current.next_values.deep_view())
                    == Ok::<NextValues, Seq<char>>(rebase.offsets.deep_view()),
                Err(error) => rebased(self.next_values.deep_view(), current.next_values.deep_view())
                    == Err::<NextValues, Seq<char>>(error.0@),
            },
    {
        let ghost recorded = self.next_values.deep_view();
        let ghost now = current.next_values.deep_view();
        let count: usize = self.next_values.len();
        let current_count: usize = current.next_values.len();
        let ghost listing = self.next_values.listing();
        if count != current_count {
            return Err(VulkanError("timeline semaphore replay topology changed".to_owned()));
        }
        for index in 0..count
            invariant
                count == listing.len(),
                listing == self.next_values.listing(),
                keys_increase::<VulkanTimelineSemaphoreReplayIdentity, u64>(listing),
                listed_map(listing) == recorded,
                recorded == self.next_values.deep_view(),
                now == current.next_values.deep_view(),
                forall|i: int| 0 <= i < index ==> now.contains_key((#[trigger] listing[i]).0),
        {
            let identity = self.next_values.key_at(index);
            proof {
                lemma_listed_at::<VulkanTimelineSemaphoreReplayIdentity, u64>(
                    listing,
                    index as int,
                );
            }
            if current.next_values.get(identity).is_none() {
                assert(recorded.dom().contains(*identity) && !now.dom().contains(*identity));
                return Err(VulkanError("timeline semaphore replay topology changed".to_owned()));
            }
        }
        proof {
            assert forall|identity: VulkanTimelineSemaphoreReplayIdentity|
                recorded.dom().contains(identity) implies now.dom().contains(identity) by {
                assert(lists_key(listing, identity));
                let k = choose|k: int|
                    0 <= k < listing.len() && #[trigger] listing[k].0 == identity;
                assert(now.contains_key(listing[k].0));
            }
            vstd::set_lib::lemma_subset_equality(recorded.dom(), now.dom());
        }
        let mut offsets: OrderedMap<VulkanTimelineSemaphoreReplayIdentity, u64> = OrderedMap::new();
        assert(offsets.deep_view() =~= listed_offsets(listing.take(0), now));
        for index in 0..count
            invariant
                count == listing.len(),
                listing == self.next_values.listing(),
                keys_increase::<VulkanTimelineSemaphoreReplayIdentity, u64>(listing),
                listed_map(listing) == recorded,
                recorded == self.next_values.deep_view(),
                now == current.next_values.deep_view(),
                recorded.dom() == now.dom(),
                forall|i: int|
                    0 <= i < index ==> now[(#[trigger] listing[i]).0] >= listing[i].1,
                offsets.deep_view() == listed_offsets(listing.take(index as int), now),
        {
            let identity = self.next_values.key_at(index);
            let recorded_value: u64 = *self.next_values.value_at(index);
            proof {
                lemma_listed_at::<VulkanTimelineSemaphoreReplayIdentity, u64>(
                    listing,
                    index as int,
                );
                assert(recorded.dom().contains(*identity));
                assert(listing.take(index as int + 1).drop_last() =~= listing.take(index as int));
            }
            match current.next_values.get(identity) {
                None => {},
                Some(value) => {
                    if *value < recorded_value {
                        assert(recorded.contains_key(*identity));
                        assert(now[*identity] < recorded[*identity]);
                        return Err(
                            VulkanError("timeline semaphore replay value regressed".to_owned()),
                        );
                    }
                    offsets.insert(*identity, *value - recorded_value);
                },
            }
        }
        proof {
            assert(listing.take(listing.len() as int) =~= listing);
            assert forall|identity: VulkanTimelineSemaphoreReplayIdentity| #[trigger]
                recorded.contains_key(identity) implies now[identity] >= recorded[identity] by {
                assert(lists_key(listing, identity));
                let k = choose|k: int|
                    0 <= k < listing.len() && #[trigger] listing[k].0 == identity;
                lemma_listed_at::<VulkanTimelineSemaphoreReplayIdentity, u64>(listing, k);
                assert(now[listing[k].0] >= listing[k].1);
            }
            lemma_listed_offsets(listing, now);
            assert(offsets.deep_view() =~= moved_on(recorded, now));
        }
        Ok(VulkanTimelineSemaphoreReplayRebase { offsets })
    }
}

/// How far the semaphores of a listing have moved on.
pub open spec fn listed_offsets(
    listing: Seq<(VulkanTimelineSemaphoreReplayIdentity, u64)>,
    current: NextValues,
) -> NextValues
    decreases listing.len(),
{
    if listing.len() == 0 {
        Map::empty()
    } else {
        listed_offsets(listing.drop_last(), current).insert(
            listing.last().0,
            (current[listing.last().0] - listing.last().1) as u64,
        )
    }
}

proof fn lemma_listed_offsets(
    listing: Seq<(VulkanTimelineSemaphoreReplayIdentity, u64)>,
    current: NextValues,
)
    requires
        keys_increase::<VulkanTimelineSemaphoreReplayIdentity, u64>(listing),
    ensures
        listed_offsets(listing, current) == moved_on(listed_map(listing), current),
    decreases listing.len(),
{
    let map = listed_map(listing);
    if listing.len() == 0 {
        assert(listed_offsets(listing, current) =~= moved_on(map, current));
    } else {
        let rest = listing.drop_last();
        let last = listing.last();
        assert forall|i: int, j: int|
            #![trigger rest[i], rest[j]]
            0 <= i < j < rest.len() implies VulkanTimelineSemaphoreReplayIdentity::before(
            rest[i].0,
            rest[j].0,
        ) by {
            assert(listing[i] == rest[i] && listing[j] == rest[j]);
        }
        lemma_listed_offsets(rest, current);
        assert forall|identity: VulkanTimelineSemaphoreReplayIdentity|
            map.contains_key(identity) <==> listed_map(rest).contains_key(identity) || identity
                == last.0 by {
            if lists_key(listing, identity) {
                let k = choose|k: int|
                    0 <= k < listing.len() && #[trigger] listing[k].0 == identity;
                if k < rest.len() {
                    assert(rest[k].0 == identity);
                }
            }
            if lists_key(rest, identity) {
                let k = choose|k: int| 0 <= k < rest.len() && #[trigger] rest[k].0 == identity;
                assert(listing[k].0 == identity);
            }
            if identity == last.0 {
                assert(listing[listing.len() - 1].0 == identity);
            }
        }
        assert forall|identity: VulkanTimelineSemaphoreReplayIdentity|
            map.contains_key(identity) implies map[identity] == (if identity == last.0 {
            last.1
        } else {
            listed_map(rest)[identity]
        }) by {
            if identity == last.0 {
                lemma_listed_at::<VulkanTimelineSemaphoreReplayIdentity, u64>(
                    listing,
                    listing.len() - 1,
                );
            } else {
                let k = choose|k: int|
                    0 <= k < listing.len() && #[trigger] listing[k].0 == identity;
                lemma_listed_at::<VulkanTimelineSemaphoreReplayIdentity, u64>(listing, k);
                assert(rest[k] == listing[k]);
                lemma_listed_at::<VulkanTimelineSemaphoreReplayIdentity, u64>(rest, k);
            }
        }
        assert(listed_offsets(listing, current) =~= moved_on(map, current));
    }
}

/// The value that a semaphore takes when a recorded value is replayed, or the text of
/// the error.
pub open spec fn replayed_value(
    offsets: NextValues,
    identity: VulkanTimelineSemaphoreReplayIdentity,
    recorded_value: u64,
) -> Result<u64, Seq<char>> {
    if offsets.contains_key(identity) {
        offset_value(recorded_value, offsets[identity])
    } else {
        Err("timeline semaphore replay has no recorded semaphore"@)
    }
}

impl VulkanTimelineSemaphoreReplayRebase {
    /// The value that a semaphore takes when a recorded value is replayed.
    pub fn value(&self, device_handle: u64, semaphore_handle: u64, recorded_value: u64) -> (outcome:
        Result<u64, VulkanError>)
        ensures
            match outcome {
                Ok(value) => replayed_value(
                    self.offsets.deep_view(),
                    (VulkanTimelineSemaphoreReplayIdentity { device_handle, semaphore_handle }),
                    recorded_value,
                ) == Ok::<u64, Seq<char>>(value),
                Err(error) => replayed_value(
                    self.offsets.deep_view(),
                    (VulkanTimelineSemaphoreReplayIdentity { device_handle, semaphore_handle }),
                    recorded_value,
                ) == Err::<u64, Seq<char>>(error.0@),
            },
    {
        let identity = VulkanTimelineSemaphoreReplayIdentity { device_handle, semaphore_handle };
        match self.offsets.get(&identity) {
            None => Err(
                VulkanError("timeline semaphore replay has no recorded semaphore".to_owned()),
            ),
            Some(offset) => offset_timeline_value(recorded_value, *offset),
        }
    }
}

/// A value keeps its distance from the next value of its semaphore when it is replayed,
/// and other semaphores have no part in that.
pub proof fn law_replayed_values_keep_their_distance(
    recorded: NextValues,
    current: NextValues,
    identity: VulkanTimelineSemaphoreReplayIdentity,
    value: u64,
)
    requires
        rebased(recorded, current) is Ok,
        replayed_value(rebased(recorded, current)->Ok_0, identity, value) is Ok,
    ensures
        recorded.contains_key(identity),
        replayed_value(rebased(recorded, current)->Ok_0, identity, value)->Ok_0 - current[identity]
            == value - recorded[identity],
{
    assert(recorded.contains_key(identity));
    assert(current[identity] >= recorded[identity]);
}

/// The bytes of an indirect dispatch command: three numbers of four bytes.
pub const INDIRECT_COMMAND_BYTES: usize = 12;

/// Why a buffer holds no indirect command at an offset.
pub open spec fn indirect_range_fault(byte_capacity: usize, byte_offset: usize) -> Option<
    Seq<char>,
> {
    let end = byte_offset + INDIRECT_COMMAND_BYTES;
    if byte_offset % 4 != 0 {
        Some(
            "resident indirect dispatch offset "@ + decimal_text(byte_offset as nat)
                + " is not 4-byte aligned"@,
        )
    } else if end > usize::MAX {
        Some("resident indirect dispatch range overflowed"@)
    } else if end > byte_capacity {
        Some(
            "resident indirect dispatch range "@ + decimal_text(byte_offset as nat) + ".."@
                + decimal_text(end as nat) + " exceeds buffer capacity "@ + decimal_text(
                byte_capacity as nat,
            ),
        )
    } else {
        None
    }
}

/// Checks that a buffer holds a whole, aligned indirect command at an offset.
pub fn validate_resident_indirect_dispatch_range(
    byte_capacity: usize,
    byte_offset: usize,
) -> (outcome: Result<(), VulkanError>)
    ensures
        match outcome {
            Ok(_) => indirect_range_fault(byte_capacity, byte_offset) is None,
            Err(error) => indirect_range_fault(byte_capacity, byte_offset) == Some(error.0@),
        },
{
    if byte_offset % 4 != 0 {
        return Err(
            VulkanError(
                join3(
                    "resident indirect dispatch offset ",
                    decimal(byte_offset).as_str(),
                    " is not 4-byte aligned",
                ),
            ),
        );
    }
    match byte_offset.checked_add(INDIRECT_COMMAND_BYTES) {
        None => Err(VulkanError("resident indirect dispatch range overflowed".to_owned())),
        Some(end) => {
            if end > byte_capacity {
                return Err(
                    VulkanError(
                        crate::text::join6(
                            "resident indirect dispatch range ",
                            decimal(byte_offset).as_str(),
                            "..",
                            decimal(end).as_str(),
                            " exceeds buffer capacity ",
                            decimal(byte_capacity).as_str(),
                        ),
                    ),
                );
            }
            Ok(())
        },
    }
}

} // verus!
