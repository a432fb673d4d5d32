//! Laws of the activations that devices share.
use vstd::prelude::*;

use crate::activation_building::{
    output_devices, plan_buffers, plan_uses, private_handoffs, read_step, settled,
    settled_activations, shared_inputs, use_step, with_activations, ActivationUsesModel,
};
use crate::activation_buffers::{
    activation_can_be_asked, activations_were_shared, allocation_asked, allocation_can_be_asked,
    allocation_outcome, differs_from, peer_buffers_from, peers_of, reduced_after, reduction_label,
    privates_gave, reduction_gave, reductions_gave, shared_after, shared_outcome, sharings_gave,
    shares_with_all, PrivateReply, SharedTally, SharingReply, VulkanDistributedReductionBufferModel, VulkanSharedResidentBuffersModel,
    VulkanSharingTarget,
};
use crate::activation_lookups::{buffer_is_reduction, is_reduction_of, reduction_seen};
use crate::activation_plans::{
    activation_key, allocation_matches, used_activation, ActivationKey, ActivationKeyModel,
    SharedActivationModel, VulkanDistributedActivationAccess,
    VulkanDistributedActivationBufferAllocationModel, VulkanDistributedActivationBufferPlanModel,
    VulkanDistributedReductionBufferAllocationModel,
};
use crate::execution_plans::{
    VulkanDistributedActivationSlotModel, VulkanDistributedActivationStorageModel,
    VulkanDistributedDispatchPlanModel, VulkanDistributedExecutionPlanModel,
    VulkanSharedResidentBufferRoute,
};
use crate::islands::shard_device_ids;
use crate::ordered::{
    lemma_listed_at, lemma_members_listed, lemma_ordered_listing_exists, lists_key, ordered_listing,
    ordered_members,
};
use crate::resident::VulkanResidentBuffer;
use crate::sequences::{find_from, fold_from, kept};
use crate::values::OrderedKey;

verus! {

/// A shared activation stands at its own key.
pub open spec fn stands_at(key: ActivationKeyModel, shared: SharedActivationModel) -> bool {
    let owner = shared.owner_device_id;
    let component = shared.component_id;
    &&& shared.signals.finite()
    &&& shared.devices.finite()
    &&& match shared.storage {
        VulkanDistributedActivationStorageModel::ActivationSlot => key == (
            0usize,
            (0usize, (owner, (component, (Seq::<char>::empty(), shared.slot)))),
        ),
        VulkanDistributedActivationStorageModel::BoundaryInput => key.0 == 1 && key == (
            1usize,
            (0usize, (owner, (component, (key.1.1.1.1.0, 0usize)))),
        ),
        VulkanDistributedActivationStorageModel::BoundaryOutput => key.0 == 2 && key == (
            2usize,
            (0usize, (owner, (component, (key.1.1.1.1.0, 0usize)))),
        ),
        VulkanDistributedActivationStorageModel::Edge { edge_index, owner_device_id } => key == (
            3usize,
            (edge_index, (owner_device_id, (Seq::<char>::empty(), (Seq::<char>::empty(), 0usize)))),
        ) && owner == owner_device_id,
    }
}

/// Every shared activation stands at its own key.
pub open spec fn all_stand(found: Map<ActivationKeyModel, SharedActivationModel>) -> bool {
    &&& found.dom().finite()
    &&& forall|key: ActivationKeyModel| #[trigger]
        found.contains_key(key) ==> stands_at(key, found[key])
}

/// The devices share an activation of a dispatch.
pub open spec fn provides(
    found: Map<ActivationKeyModel, SharedActivationModel>,
    owner_device_id: Seq<char>,
    activation: VulkanDistributedActivationSlotModel,
    devices: Set<Seq<char>>,
) -> bool {
    let key = activation_key(owner_device_id, activation);
    &&& found.contains_key(key)
    &&& found[key].storage == activation.storage
    &&& found[key].byte_capacity == activation.byte_capacity
    &&& found[key].signals.contains(activation.signal_id)
    &&& devices.subset_of(found[key].devices)
}

/// What one collection provides the other provides, too.
pub open spec fn keeps_providing(
    before: Map<ActivationKeyModel, SharedActivationModel>,
    after: Map<ActivationKeyModel, SharedActivationModel>,
) -> bool {
    forall|
        owner: Seq<char>,
        activation: VulkanDistributedActivationSlotModel,
        devices: Set<Seq<char>>,
    | #[trigger]
        provides(before, owner, activation, devices) ==> provides(
            after,
            owner,
            activation,
            devices,
        )
}

proof fn lemma_use(
    found: Map<ActivationKeyModel, SharedActivationModel>,
    owner_device_id: Seq<char>,
    activation: VulkanDistributedActivationSlotModel,
    participants: Set<Seq<char>>,
    access: VulkanDistributedActivationAccess,
)
    requires
        all_stand(found),
        participants.finite(),
        used_activation(found, owner_device_id, activation, participants, access) is Ok,
    ensures
        all_stand(
            used_activation(found, owner_device_id, activation, participants, access)->Ok_0,
        ),
        provides(
            used_activation(found, owner_device_id, activation, participants, access)->Ok_0,
            owner_device_id,
            activation,
            participants,
        ),
        keeps_providing(
            found,
            used_activation(found, owner_device_id, activation, participants, access)->Ok_0,
        ),
{
    let after = used_activation(found, owner_device_id, activation, participants, access)->Ok_0;
    let key = activation_key(owner_device_id, activation);
    assert(stands_at(key, after[key]));
    assert forall|
        owner: Seq<char>,
        other: VulkanDistributedActivationSlotModel,
        devices: Set<Seq<char>>,
    | #[trigger]
        provides(found, owner, other, devices) implies provides(after, owner, other, devices) by {
        let place = activation_key(owner, other);
        if place == key {
            assert(devices.subset_of(found[key].devices));
            assert(found[key].devices.subset_of(after[key].devices));
        }
    }
}

proof fn lemma_reads(
    found: Map<ActivationKeyModel, SharedActivationModel>,
    owner_device_id: Seq<char>,
    participants: Set<Seq<char>>,
    inputs: Seq<VulkanDistributedActivationSlotModel>,
    index: nat,
)
    requires
        all_stand(found),
        participants.finite(),
        index <= inputs.len(),
        fold_from(inputs, index, found, read_step(owner_device_id, participants)) is Ok,
    ensures
        all_stand(
            fold_from(inputs, index, found, read_step(owner_device_id, participants))->Ok_0,
        ),
        keeps_providing(
            found,
            fold_from(inputs, index, found, read_step(owner_device_id, participants))->Ok_0,
        ),
        forall|i: int|
            index <= i < inputs.len() ==> provides(
                fold_from(inputs, index, found, read_step(owner_device_id, participants))->Ok_0,
                owner_device_id,
                #[trigger] inputs[i],
                participants,
            ),
    decreases inputs.len() - index,
{
    if index < inputs.len() {
        let access = VulkanDistributedActivationAccess::Input;
        let activation = inputs[index as int];
        lemma_use(found, owner_device_id, activation, participants, access);
        let next = used_activation(
            found,
            owner_device_id,
            activation,
            participants,
            access,
        )->Ok_0;
        lemma_reads(next, owner_device_id, participants, inputs, index + 1);
    }
}

/// The devices of a dispatch share what it reads and writes.
pub open spec fn serves_dispatch(
    found: Map<ActivationKeyModel, SharedActivationModel>,
    dispatch: VulkanDistributedDispatchPlanModel,
    producers: Set<usize>,
    consumers: Set<usize>,
) -> bool {
    &&& forall|i: int|
        0 <= i < shared_inputs(dispatch, consumers).len() ==> provides(
            found,
            dispatch.owner_device_id,
            #[trigger] shared_inputs(dispatch, consumers)[i],
            shard_device_ids(dispatch.shards).to_set(),
        )
    &&& producers.contains(dispatch.dispatch_index) || provides(
        found,
        dispatch.owner_device_id,
        dispatch.output_activation,
        output_devices(dispatch),
    )
}

proof fn lemma_dispatch(
    found: Map<ActivationKeyModel, SharedActivationModel>,
    dispatch: VulkanDistributedDispatchPlanModel,
    producers: Set<usize>,
    consumers: Set<usize>,
)
    requires
        all_stand(found),
        with_activations(found, dispatch, producers, consumers) is Ok,
    ensures
        all_stand(with_activations(found, dispatch, producers, consumers)->Ok_0),
        keeps_providing(found, with_activations(found, dispatch, producers, consumers)->Ok_0),
        serves_dispatch(
            with_activations(found, dispatch, producers, consumers)->Ok_0,
            dispatch,
            producers,
            consumers,
        ),
{
    broadcast use vstd::seq_lib::seq_to_set_is_finite;

    let participants = shard_device_ids(dispatch.shards).to_set();
    let inputs = shared_inputs(dispatch, consumers);
    let owner = dispatch.owner_device_id;
    lemma_reads(found, owner, participants, inputs, 0);
    let read = fold_from(inputs, 0, found, read_step(owner, participants))->Ok_0;
    if !producers.contains(dispatch.dispatch_index) {
        lemma_use(
            read,
            owner,
            dispatch.output_activation,
            output_devices(dispatch),
            VulkanDistributedActivationAccess::Output,
        );
    }
}

proof fn lemma_uses(
    pool: Set<Seq<char>>,
    producers: Set<usize>,
    consumers: Set<usize>,
    dispatches: Seq<VulkanDistributedDispatchPlanModel>,
    index: nat,
    found: ActivationUsesModel,
)
    requires
        all_stand(found.shared),
        index <= dispatches.len(),
        fold_from(dispatches, index, found, use_step(pool, producers, consumers)) is Ok,
    ensures
        all_stand(
            fold_from(
                dispatches,
                index,
                found,
                use_step(pool, producers, consumers),
            )->Ok_0.shared,
        ),
        keeps_providing(
            found.shared,
            fold_from(
                dispatches,
                index,
                found,
                use_step(pool, producers, consumers),
            )->Ok_0.shared,
        ),
        forall|i: int|
            index <= i < dispatches.len() ==> serves_dispatch(
                fold_from(
                    dispatches,
                    index,
                    found,
                    use_step(pool, producers, consumers),
                )->Ok_0.shared,
                #[trigger] dispatches[i],
                producers,
                consumers,
            ),
    decreases dispatches.len() - index,
{
    let step = use_step(pool, producers, consumers);
    if index < dispatches.len() {
        let dispatch = dispatches[index as int];
        lemma_dispatch(found.shared, dispatch, producers, consumers);
        let next = step(found, dispatch)->Ok_0;
        assert(next.shared == with_activations(
            found.shared,
            dispatch,
            producers,
            consumers,
        )->Ok_0);
        lemma_uses(pool, producers, consumers, dispatches, index + 1, next);
        let last = fold_from(dispatches, index + 1, next, step)->Ok_0.shared;
        assert(serves_dispatch(last, dispatch, producers, consumers));
    }
}

/// An allocation of the plan holds the activation, and all of these devices see it.
pub open spec fn is_allocated(
    allocations: Seq<VulkanDistributedActivationBufferAllocationModel>,
    owner_device_id: Seq<char>,
    activation: VulkanDistributedActivationSlotModel,
    devices: Set<Seq<char>>,
) -> bool {
    exists|k: int|
        0 <= k < allocations.len() && allocation_matches(
            owner_device_id,
            activation,
            #[trigger] allocations[k],
        ) && allocations[k].byte_capacity == activation.byte_capacity && devices.subset_of(
            allocations[k].device_ids.to_set(),
        )
}

proof fn lemma_provided_is_allocated(
    found: Map<ActivationKeyModel, SharedActivationModel>,
    owner_device_id: Seq<char>,
    activation: VulkanDistributedActivationSlotModel,
    devices: Set<Seq<char>>,
)
    requires
        all_stand(found),
        provides(found, owner_device_id, activation, devices),
    ensures
        is_allocated(settled_activations(found), owner_device_id, activation, devices),
{
    let key = activation_key(owner_device_id, activation);
    let shared = found[key];
    let listing = ordered_listing::<ActivationKey, SharedActivationModel>(found);
    lemma_ordered_listing_exists::<ActivationKey, SharedActivationModel>(found);
    assert(lists_key(listing, key));
    let k = choose|k: int| 0 <= k < listing.len() && #[trigger] listing[k].0 == key;
    lemma_listed_at::<ActivationKey, SharedActivationModel>(listing, k);
    let allocations = settled_activations(found);
    assert(allocations[k] == settled()(shared));
    assert(stands_at(key, shared));
    lemma_members_listed::<String>(shared.signals);
    lemma_members_listed::<String>(shared.devices);
    assert(ordered_members::<String>(shared.signals).to_set().contains(activation.signal_id));
}

/// Every activation that a dispatch reads from or writes to other devices has an
/// allocation of its capacity, and every device that takes part sees it.
pub proof fn law_planned_activations_are_allocated(
    plan: VulkanDistributedExecutionPlanModel,
    index: int,
)
    requires
        plan_buffers(plan) is Ok,
        0 <= index < plan.dispatches.len(),
    ensures
        ({
            let dispatch = plan.dispatches[index];
            let handoffs = private_handoffs(plan.execution_islands)->Ok_0;
            let allocations = plan_buffers(plan)->Ok_0.allocations;
            &&& forall|i: int|
                0 <= i < shared_inputs(dispatch, handoffs.consumers).len() ==> is_allocated(
                    allocations,
                    dispatch.owner_device_id,
                    #[trigger] shared_inputs(dispatch, handoffs.consumers)[i],
                    shard_device_ids(dispatch.shards).to_set(),
                )
            &&& handoffs.producers.contains(dispatch.dispatch_index) || is_allocated(
                allocations,
                dispatch.owner_device_id,
                dispatch.output_activation,
                output_devices(dispatch),
            )
        }),
{
    let dispatch = plan.dispatches[index];
    let handoffs = private_handoffs(plan.execution_islands)->Ok_0;
    let shared = plan_uses(plan, handoffs)->Ok_0.shared;
    let allocations = plan_buffers(plan)->Ok_0.allocations;
    lemma_uses(
        plan.device_ids.to_set(),
        handoffs.producers,
        handoffs.consumers,
        plan.dispatches,
        0,
        crate::activation_building::no_uses(),
    );
    assert(serves_dispatch(shared, dispatch, handoffs.producers, handoffs.consumers));
    let inputs = shared_inputs(dispatch, handoffs.consumers);
    let devices = shard_device_ids(dispatch.shards).to_set();
    assert forall|i: int| 0 <= i < inputs.len() implies is_allocated(
        allocations,
        dispatch.owner_device_id,
        #[trigger] inputs[i],
        devices,
    ) by {
        lemma_provided_is_allocated(shared, dispatch.owner_device_id, inputs[i], devices);
    }
    if !handoffs.producers.contains(dispatch.dispatch_index) {
        lemma_provided_is_allocated(
            shared,
            dispatch.owner_device_id,
            dispatch.output_activation,
            output_devices(dispatch),
        );
    }
}

/// Graph edges that are deferred leave every device untouched: where a plan holds
/// nothing else, it can be allocated with devices of which nothing may be asked.
pub proof fn law_deferred_edges_ask_no_device<
    D,
    S: Fn(
        D,
        VulkanSharingTarget,
        &String,
        &Vec<String>,
        usize,
        VulkanSharedResidentBufferRoute,
    ) -> (D, SharingReply),
    C: Fn(D, usize, usize, &String, usize) -> (D, PrivateReply),
>(
    share: S,
    create: C,
    plan: VulkanDistributedActivationBufferPlanModel,
    lane_capacity: usize,
    devices: D,
)
    requires
        forall|i: int|
            0 <= i < plan.allocations.len() ==> (#[trigger] plan.allocations[i]).storage is Edge,
        plan.reduction_allocations.len() == 0,
        plan.private_intermediate_allocations.len() == 0,
    ensures
        allocation_can_be_asked(share, create, plan, lane_capacity, true, devices),
{
    assert forall|replies: Seq<Option<SharingReply>>, at: D| #[trigger]
        activations_were_shared(share, plan, lane_capacity, true, replies, devices, at)
            && replies.len() < plan.allocations.len() implies activation_can_be_asked(
        share,
        plan,
        lane_capacity,
        true,
        replies.len() as int,
        at,
    ) by {
        assert(plan.allocations[replies.len() as int].storage is Edge);
    }
}

/// Without lanes no device is asked: any plan can be refused with devices of which
/// nothing may be asked.
pub proof fn law_no_lanes_ask_no_device<
    D,
    S: Fn(
        D,
        VulkanSharingTarget,
        &String,
        &Vec<String>,
        usize,
        VulkanSharedResidentBufferRoute,
    ) -> (D, SharingReply),
    C: Fn(D, usize, usize, &String, usize) -> (D, PrivateReply),
>(
    share: S,
    create: C,
    plan: VulkanDistributedActivationBufferPlanModel,
    defer_graph_edges: bool,
    devices: D,
)
    ensures
        allocation_can_be_asked(share, create, plan, 0, defer_graph_edges, devices),
{
}

proof fn lemma_peers_placed(
    label: Seq<char>,
    peers: Seq<Seq<char>>,
    buffers: Seq<VulkanResidentBuffer>,
    index: nat,
    found: Map<Seq<char>, VulkanResidentBuffer>,
    allowed: Set<Seq<char>>,
)
    requires
        found.dom().finite(),
        found.dom().subset_of(allowed),
        forall|i: int| 0 <= i < peers.len() ==> allowed.contains(#[trigger] peers[i]),
        peer_buffers_from(label, peers, buffers, index, found) is Ok,
    ensures
        peer_buffers_from(label, peers, buffers, index, found)->Ok_0.dom().finite(),
        peer_buffers_from(label, peers, buffers, index, found)->Ok_0.dom().subset_of(allowed),
    decreases peers.len() - index,
{
    if index < peers.len() && index + 1 < buffers.len() {
        lemma_peers_placed(
            label,
            peers,
            buffers,
            index + 1,
            found.insert(peers[index as int], buffers[index as int + 1]),
            allowed,
        );
    }
}

proof fn lemma_kept_are_listed(items: Seq<Seq<char>>, condition: spec_fn(Seq<char>) -> bool)
    ensures
        forall|i: int|
            0 <= i < kept(items, condition).len() ==> items.contains(
                #[trigger] kept(items, condition)[i],
            ),
    decreases items.len(),
{
    if items.len() > 0 {
        lemma_kept_are_listed(items.drop_last(), condition);
        assert forall|i: int| 0 <= i < kept(items, condition).len() implies items.contains(
            #[trigger] kept(items, condition)[i],
        ) by {
            let earlier = kept(items.drop_last(), condition);
            if i < earlier.len() {
                assert(earlier[i] == kept(items, condition)[i]);
                let k = choose|k: int|
                    0 <= k < items.len() - 1 && items.drop_last()[k] == earlier[i];
                assert(items[k] == earlier[i]);
            } else {
                assert(items[items.len() - 1] == kept(items, condition)[i]);
            }
        }
    }
}

/// Where every peer has its own place, each gets its own buffer.
proof fn lemma_peers_counted(
    label: Seq<char>,
    peers: Seq<Seq<char>>,
    buffers: Seq<VulkanResidentBuffer>,
    index: nat,
    found: Map<Seq<char>, VulkanResidentBuffer>,
)
    requires
        index <= peers.len(),
        buffers.len() == peers.len() + 1,
        found.dom().finite(),
        peer_buffers_from(label, peers, buffers, index, found) is Ok,
    ensures
        peer_buffers_from(label, peers, buffers, index, found)->Ok_0.dom().len()
            == found.dom().len() + (peers.len() - index),
    decreases peers.len() - index,
{
    if index < peers.len() {
        let next = found.insert(peers[index as int], buffers[index as int + 1]);
        assert(next.dom() =~= found.dom().insert(peers[index as int]));
        lemma_peers_counted(label, peers, buffers, index + 1, next);
    }
}

proof fn lemma_all_kept(items: Seq<Seq<char>>, condition: spec_fn(Seq<char>) -> bool)
    requires
        forall|i: int| 0 <= i < items.len() ==> #[trigger] condition(items[i]),
    ensures
        kept(items, condition).len() == items.len(),
    decreases items.len(),
{
    if items.len() > 0 {
        assert forall|i: int| 0 <= i < items.len() - 1 implies #[trigger] condition(
            items.drop_last()[i],
        ) by {
            assert(condition(items[i]));
        }
        lemma_all_kept(items.drop_last(), condition);
        assert(condition(items[items.len() - 1]));
    }
}

/// A buffer that devices share is seen by its planned devices and no others, where its
/// owner is among them or every device answered with its own view.
pub proof fn law_shared_buffers_are_seen_by_their_devices(
    owner_device_id: Seq<char>,
    device_ids: Seq<Seq<char>>,
    label: Seq<char>,
    shared: VulkanSharedResidentBuffersModel,
)
    requires
        device_ids.contains(owner_device_id) || shared.buffers.len() == peers_of(
            owner_device_id,
            device_ids,
        ).len() + 1,
        shared_outcome(owner_device_id, device_ids, label, shared) is Ok,
    ensures
        shared_outcome(owner_device_id, device_ids, label, shared)->Ok_0.device_buffers.dom()
            == device_ids.to_set(),
{
    broadcast use vstd::seq_lib::seq_to_set_is_finite;

    let start = Map::empty().insert(owner_device_id, shared.buffers[0]);
    let peers = peers_of(owner_device_id, device_ids);
    let allowed = device_ids.to_set();
    if !device_ids.contains(owner_device_id) {
        lemma_peers_counted(label, peers, shared.buffers, 0, start);
        assert(start.dom() =~= set![owner_device_id]);
        assert forall|i: int| 0 <= i < device_ids.len() implies #[trigger] differs_from(
            owner_device_id,
        )(device_ids[i]) by {
            assert(device_ids.contains(device_ids[i]));
        }
        lemma_all_kept(device_ids, differs_from(owner_device_id));
    }
    lemma_kept_are_listed(device_ids, differs_from(owner_device_id));
    lemma_peers_placed(label, peers, shared.buffers, 0, start, allowed);
    let placed = peer_buffers_from(label, peers, shared.buffers, 0, start)->Ok_0.dom();
    device_ids.lemma_cardinality_of_set();
    vstd::set_lib::lemma_len_subset(placed, allowed);
    vstd::set_lib::lemma_subset_equality(placed, allowed);
}

proof fn lemma_reductions_placed<
    D,
    S: Fn(
        D,
        VulkanSharingTarget,
        &String,
        &Vec<String>,
        usize,
        VulkanSharedResidentBufferRoute,
    ) -> (D, SharingReply),
>(
    share: S,
    plan: VulkanDistributedActivationBufferPlanModel,
    lane_capacity: usize,
    tally: SharedTally,
    replies: Seq<Option<SharingReply>>,
    from: D,
    to: D,
)
    requires
        shares_with_all(share),
        reductions_gave(share, plan, lane_capacity, replies, from, to),
        reduced_after(plan, lane_capacity, tally, replies) is Ok,
    ensures
        ({
            let buffers = reduced_after(plan, lane_capacity, tally, replies)->Ok_0.0;
            &&& buffers.len() == replies.len()
            &&& forall|i: int|
                0 <= i < replies.len() ==> (#[trigger] buffers[i]).planned
                    == plan.reduction_allocations[i] && buffers[i].device_buffers.dom()
                    == buffers[i].planned.device_ids.to_set()
        }),
    decreases replies.len(),
{
    if replies.len() > 0 {
        let last = replies.len() - 1;
        let target = VulkanSharingTarget::Reduction { index: last as usize };
        let at = choose|at: D| #[trigger]
            reduction_gave(share, plan, lane_capacity, last, replies.last(), at, to)
                && reductions_gave(share, plan, lane_capacity, replies.drop_last(), from, at);
        lemma_reductions_placed(share, plan, lane_capacity, tally, replies.drop_last(), from, at);
        let planned = plan.reduction_allocations[last];
        let earlier = reduced_after(plan, lane_capacity, tally, replies.drop_last())->Ok_0.0;
        let buffers = reduced_after(plan, lane_capacity, tally, replies)->Ok_0.0;
        let reply = replies.last()->0;
        let shared = reply->Ok_0;
        assert(shared.buffers.len() == peers_of(planned.owner_device_id, planned.device_ids).len()
            + 1) by {
            let (owner, peers, bytes) = choose|
                owner: &String,
                peers: &Vec<String>,
                bytes: usize,
            |
                owner@ == planned.owner_device_id && peers.deep_view() == peers_of(
                    planned.owner_device_id,
                    planned.device_ids,
                ) && bytes == planned.byte_capacity * lane_capacity && call_requires(
                    share,
                    (at, target, owner, peers, bytes, plan.route),
                ) && #[trigger] call_ensures(
                    share,
                    (at, target, owner, peers, bytes, plan.route),
                    (to, reply),
                );
            assert(peers.deep_view().len() == peers.len());
        }
        law_shared_buffers_are_seen_by_their_devices(
            planned.owner_device_id,
            planned.device_ids,
            reduction_label(planned),
            shared.deep_view(),
        );
        assert forall|i: int| 0 <= i < replies.len() implies (#[trigger] buffers[i]).planned
            == plan.reduction_allocations[i] && buffers[i].device_buffers.dom()
            == buffers[i].planned.device_ids.to_set() by {
            if i < earlier.len() {
                assert(buffers[i] == earlier[i]);
            }
        }
    }
}

proof fn lemma_reductions_found_alike(
    buffers: Seq<VulkanDistributedReductionBufferModel>,
    planned: Seq<VulkanDistributedReductionBufferAllocationModel>,
    owner_device_id: Seq<char>,
    dispatch_index: usize,
    start: nat,
)
    requires
        buffers.len() == planned.len(),
        forall|i: int|
            0 <= i < buffers.len() ==> (#[trigger] buffers[i]).planned == planned[i],
    ensures
        ({
            let buffer = find_from(
                buffers,
                start,
                buffer_is_reduction(owner_device_id, dispatch_index),
            );
            let allocation = find_from(
                planned,
                start,
                is_reduction_of(owner_device_id, dispatch_index),
            );
            &&& buffer is Some <==> allocation is Some
            &&& buffer is Some ==> buffer->0.planned == allocation->0 && buffers.contains(
                buffer->0,
            )
        }),
    decreases buffers.len() - start,
{
    if start < buffers.len() {
        assert(buffers[start as int].planned == planned[start as int]);
        if !is_reduction_of(owner_device_id, dispatch_index)(planned[start as int]) {
            lemma_reductions_found_alike(
                buffers,
                planned,
                owner_device_id,
                dispatch_index,
                start + 1,
            );
        }
    }
}

/// After a plan was allocated, a device sees the partial outputs of a dispatch exactly
/// where the plan has a reduction of the dispatch that the device takes part in.
pub proof fn law_planned_devices_see_partial_outputs<
    D,
    S: Fn(
        D,
        VulkanSharingTarget,
        &String,
        &Vec<String>,
        usize,
        VulkanSharedResidentBufferRoute,
    ) -> (D, SharingReply),
    C: Fn(D, usize, usize, &String, usize) -> (D, PrivateReply),
>(
    share: S,
    create: C,
    defer_graph_edges: bool,
    plan: VulkanDistributedActivationBufferPlanModel,
    lane_capacity: usize,
    sharings: Seq<Option<SharingReply>>,
    reductions: Seq<Option<SharingReply>>,
    privates: Seq<Seq<Option<PrivateReply>>>,
    from: D,
    to: D,
    owner_device_id: Seq<char>,
    dispatch_index: usize,
    device_id: Seq<char>,
)
    requires
        shares_with_all(share),
        allocation_asked(
            share,
            create,
            plan,
            lane_capacity,
            defer_graph_edges,
            sharings,
            reductions,
            privates,
            from,
            to,
        ),
        allocation_outcome(plan, lane_capacity, sharings, reductions, privates) is Ok,
    ensures
        ({
            let planned = find_from(
                plan.reduction_allocations,
                0,
                is_reduction_of(owner_device_id, dispatch_index),
            );
            reduction_seen(
                allocation_outcome(plan, lane_capacity, sharings, reductions, privates)->Ok_0,
                owner_device_id,
                dispatch_index,
                device_id,
            ) is Some <==> planned is Some && planned->0.device_ids.contains(device_id)
        }),
{
    let shared = shared_after(plan, lane_capacity, sharings)->Ok_0;
    let (shared_at, reduced_at) = choose|shared_at: D, reduced_at: D|
        #![trigger sharings_gave(share, plan, lane_capacity, defer_graph_edges, sharings, from, shared_at), privates_gave(create, plan, lane_capacity, privates, reduced_at, to)]
        sharings_gave(share, plan, lane_capacity, defer_graph_edges, sharings, from, shared_at)
            && reductions_gave(share, plan, lane_capacity, reductions, shared_at, reduced_at)
            && privates_gave(create, plan, lane_capacity, privates, reduced_at, to);
    lemma_reductions_placed(
        share,
        plan,
        lane_capacity,
        shared.1,
        reductions,
        shared_at,
        reduced_at,
    );
    let buffers = reduced_after(plan, lane_capacity, shared.1, reductions)->Ok_0.0;
    lemma_reductions_found_alike(
        buffers,
        plan.reduction_allocations,
        owner_device_id,
        dispatch_index,
        0,
    );
    let buffer = find_from(buffers, 0, buffer_is_reduction(owner_device_id, dispatch_index));
    if buffer is Some {
        let k = choose|k: int| 0 <= k < buffers.len() && #[trigger] buffers[k] == buffer->0;
        assert(buffers[k].device_buffers.dom() == buffers[k].planned.device_ids.to_set());
        assert(buffer->0.device_buffers.contains_key(device_id)
            <==> buffer->0.device_buffers.dom().contains(device_id));
    }
}

} // verus!
