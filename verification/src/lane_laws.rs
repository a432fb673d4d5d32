//! Laws of allocating activations for lanes.
use vstd::prelude::*;

use crate::activation_buffers::{
    activation_gave, allocation_outcome, answered_sharing, peer_buffers_from, peers_of,
    private_devices_after, privates_after, reduced_after, reduction_gave, shared_after,
    shared_outcome, PrivateReply, SharedTally, SharingReply, VulkanDistributedActivationBufferModel,
    VulkanDistributedReductionBufferModel, VulkanSharedResidentBuffersModel, VulkanSharingTarget,
};
use crate::activation_plans::{
    VulkanDistributedActivationBufferPlanModel,
    VulkanDistributedPrivateIntermediateBufferAllocationModel,
};
use crate::execution_plans::VulkanSharedResidentBufferRoute;
use crate::resident::VulkanResidentBuffer;

verus! {

/// The devices without one of them, in their order.
pub open spec fn without(device_ids: Seq<Seq<char>>, device_id: Seq<char>) -> Seq<Seq<char>>
    decreases device_ids.len(),
{
    if device_ids.len() == 0 {
        Seq::empty()
    } else if device_ids.last() == device_id {
        without(device_ids.drop_last(), device_id)
    } else {
        without(device_ids.drop_last(), device_id).push(device_ids.last())
    }
}

/// The peers of a buffer are its devices without its owner.
pub proof fn law_peers_are_the_other_devices(
    owner_device_id: Seq<char>,
    device_ids: Seq<Seq<char>>,
)
    ensures
        peers_of(owner_device_id, device_ids) == without(device_ids, owner_device_id),
    decreases device_ids.len(),
{
    if device_ids.len() > 0 {
        law_peers_are_the_other_devices(owner_device_id, device_ids.drop_last());
    }
}

proof fn lemma_peers_see(
    label: Seq<char>,
    peers: Seq<Seq<char>>,
    buffers: Seq<VulkanResidentBuffer>,
    index: nat,
    found: Map<Seq<char>, VulkanResidentBuffer>,
)
    requires
        index <= peers.len(),
        buffers.len() == peers.len() + 1,
        found.dom().finite(),
        peer_buffers_from(label, peers, buffers, index, found) is Ok,
    ensures
        ({
            let all = peer_buffers_from(label, peers, buffers, index, found)->Ok_0;
            &&& all.dom().finite()
            &&& forall|device_id: Seq<char>| #[trigger]
                found.contains_key(device_id) ==> all.contains_key(device_id) && all[device_id]
                    == found[device_id]
            &&& forall|p: int|
                index <= p < peers.len() ==> all.contains_key(#[trigger] peers[p]) && all[peers[p]]
                    == buffers[p + 1]
        }),
    decreases peers.len() - index,
{
    if index < peers.len() {
        let next = found.insert(peers[index as int], buffers[index as int + 1]);
        lemma_peers_see(label, peers, buffers, index + 1, next);
        assert(next.contains_key(peers[index as int]));
        assert forall|device_id: Seq<char>| #[trigger]
            found.contains_key(device_id) implies next.contains_key(device_id)
            && next[device_id] == found[device_id] by {}
    }
}

/// What devices see of a buffer that they share: the owner the first view that they gave, and
/// its peers the others in turn. Each device sees one.
pub proof fn law_devices_see_their_own_view(
    owner_device_id: Seq<char>,
    device_ids: Seq<Seq<char>>,
    label: Seq<char>,
    shared: VulkanSharedResidentBuffersModel,
)
    requires
        shared.buffers.len() == without(device_ids, owner_device_id).len() + 1,
        shared_outcome(owner_device_id, device_ids, label, shared) is Ok,
    ensures
        ({
            let seen = shared_outcome(owner_device_id, device_ids, label, shared)->Ok_0;
            let peers = without(device_ids, owner_device_id);
            &&& seen.route == shared.route
            &&& seen.device_buffers.contains_key(owner_device_id)
            &&& seen.device_buffers[owner_device_id] == shared.buffers[0]
            &&& forall|p: int|
                0 <= p < peers.len() ==> seen.device_buffers.contains_key(#[trigger] peers[p])
                    && seen.device_buffers[peers[p]] == shared.buffers[p + 1]
            &&& seen.device_buffers.dom().len() == device_ids.len()
        }),
{
    law_peers_are_the_other_devices(owner_device_id, device_ids);
    let first = Map::<Seq<char>, VulkanResidentBuffer>::empty().insert(
        owner_device_id,
        shared.buffers[0],
    );
    lemma_peers_see(label, peers_of(owner_device_id, device_ids), shared.buffers, 0, first);
    assert(first.contains_key(owner_device_id));
}

/// Devices are asked for a shared activation as large as it is for all lanes, on its owner
/// and for the other devices. Nobody is asked where the bytes do not fit, or where the
/// activation is a graph edge and those are put off.
pub proof fn law_activations_are_asked_for_all_lanes<
    D,
    S: Fn(
        D,
        VulkanSharingTarget,
        &String,
        &Vec<String>,
        usize,
        VulkanSharedResidentBufferRoute,
    ) -> (D, SharingReply),
>(
    share: S,
    plan: VulkanDistributedActivationBufferPlanModel,
    lanes: usize,
    defer_graph_edges: bool,
    index: int,
    reply: Option<SharingReply>,
    from: D,
    to: D,
)
    requires
        0 <= index < plan.allocations.len(),
        activation_gave(share, plan, lanes, defer_graph_edges, index, reply, from, to),
    ensures
        reply is None <==> plan.allocations[index].byte_capacity * lanes > usize::MAX
            || defer_graph_edges && plan.allocations[index].storage is Edge,
        reply is None ==> from == to,
        reply is Some ==> exists|owner: &String, peers: &Vec<String>, bytes: usize|
            owner@ == plan.allocations[index].owner_device_id && peers.deep_view() == without(
                plan.allocations[index].device_ids,
                plan.allocations[index].owner_device_id,
            ) && bytes == plan.allocations[index].byte_capacity * lanes && #[trigger] call_ensures(
                share,
                (
                    from,
                    VulkanSharingTarget::Activation { index: index as usize },
                    owner,
                    peers,
                    bytes,
                    plan.route,
                ),
                (to, reply->0),
            ),
{
    law_peers_are_the_other_devices(
        plan.allocations[index].owner_device_id,
        plan.allocations[index].device_ids,
    );
}

/// The bytes of the first shared activations.
pub open spec fn activation_bytes(
    plan: VulkanDistributedActivationBufferPlanModel,
    count: int,
) -> nat
    decreases count,
{
    if count <= 0 {
        0
    } else {
        activation_bytes(plan, count - 1) + plan.allocations[count - 1].byte_capacity as nat
    }
}

/// The bytes of the first reductions.
pub open spec fn reduction_bytes(
    plan: VulkanDistributedActivationBufferPlanModel,
    count: int,
) -> nat
    decreases count,
{
    if count <= 0 {
        0
    } else {
        reduction_bytes(plan, count - 1) + plan.reduction_allocations[count
            - 1].byte_capacity as nat
    }
}

/// The devices that see the first of some buffers.
pub open spec fn imports_of(
    buffers: Seq<Map<Seq<char>, VulkanResidentBuffer>>,
    count: int,
) -> nat
    decreases count,
{
    if count <= 0 {
        0
    } else {
        imports_of(buffers, count - 1) + buffers[count - 1].dom().len()
    }
}

proof fn lemma_imports_same(
    left: Seq<Map<Seq<char>, VulkanResidentBuffer>>,
    right: Seq<Map<Seq<char>, VulkanResidentBuffer>>,
    count: int,
)
    requires
        count <= left.len(),
        count <= right.len(),
        forall|i: int| 0 <= i < count ==> left[i] == right[i],
    ensures
        imports_of(left, count) == imports_of(right, count),
    decreases count,
{
    if count > 0 {
        lemma_imports_same(left, right, count - 1);
    }
}

proof fn lemma_shared(
    plan: VulkanDistributedActivationBufferPlanModel,
    lanes: usize,
    replies: Seq<Option<SharingReply>>,
)
    requires
        replies.len() <= plan.allocations.len(),
        shared_after(plan, lanes, replies) is Ok,
    ensures
        ({
            let found = shared_after(plan, lanes, replies)->Ok_0;
            let seen = Seq::new(found.0.len(), |i: int| found.0[i].device_buffers);
            &&& found.0.len() == replies.len()
            &&& found.1.bytes == activation_bytes(plan, replies.len() as int) * lanes
            &&& found.1.imports == imports_of(seen, replies.len() as int)
            &&& forall|i: int|
                0 <= i < replies.len() ==> is_answered(
                    plan,
                    i,
                    replies[i],
                    #[trigger] found.0[i],
                )
        }),
    decreases replies.len(),
{
    if replies.len() > 0 {
        let rest = replies.drop_last();
        let count = rest.len() as int;
        lemma_shared(plan, lanes, rest);
        let before = shared_after(plan, lanes, rest)->Ok_0;
        let found = shared_after(plan, lanes, replies)->Ok_0;
        let seen_before = Seq::new(before.0.len(), |i: int| before.0[i].device_buffers);
        let seen = Seq::new(found.0.len(), |i: int| found.0[i].device_buffers);
        lemma_imports_same(seen_before, seen, count);
        let some = activation_bytes(plan, count) as int;
        let own = plan.allocations[count].byte_capacity as int;
        assert((some + own) * lanes == some * lanes + own * lanes) by (nonlinear_arith);
        assert(own * lanes >= 0) by (nonlinear_arith)
            requires
                own >= 0,
                lanes >= 0,
        ;
        let planned = plan.allocations[count];
        if replies[count] is Some {
            lemma_answer_seen(
                planned.owner_device_id,
                planned.device_ids,
                (own * lanes) as usize,
                crate::activation_buffers::sharing_label(planned),
                replies[count]->0,
            );
        }
        assert(is_answered(plan, count, replies[count], found.0[count]));
        assert forall|i: int| 0 <= i < replies.len() implies is_answered(
            plan,
            i,
            replies[i],
            #[trigger] found.0[i],
        ) by {
            if i < count {
                assert(found.0[i] == before.0[i]);
                assert(rest[i] == replies[i]);
            }
        }
    } else {
        assert(0 * lanes == 0) by (nonlinear_arith);
    }
}

/// Devices see what they answered: the owner its own view, and the others theirs in turn.
pub open spec fn see_their_answer(
    owner_device_id: Seq<char>,
    device_ids: Seq<Seq<char>>,
    shared: VulkanSharedResidentBuffersModel,
    seen: Map<Seq<char>, VulkanResidentBuffer>,
) -> bool {
    let peers = without(device_ids, owner_device_id);
    &&& seen.dom().len() == device_ids.len()
    &&& shared.buffers.len() == peers.len() + 1 ==> {
        &&& seen.contains_key(owner_device_id)
        &&& seen[owner_device_id] == shared.buffers[0]
        &&& forall|p: int|
            0 <= p < peers.len() ==> seen.contains_key(#[trigger] peers[p]) && seen[peers[p]]
                == shared.buffers[p + 1]
    }
}

proof fn lemma_answer_seen(
    owner_device_id: Seq<char>,
    device_ids: Seq<Seq<char>>,
    bytes: usize,
    label: Seq<char>,
    reply: SharingReply,
)
    requires
        answered_sharing(owner_device_id, device_ids, bytes, label, reply) is Ok,
    ensures
        reply is Ok,
        ({
            let shared = answered_sharing(owner_device_id, device_ids, bytes, label, reply)->Ok_0;
            &&& shared.route == reply->Ok_0.deep_view().route
            &&& shared.external_device_local_error
                == reply->Ok_0.deep_view().external_device_local_error
            &&& see_their_answer(
                owner_device_id,
                device_ids,
                reply->Ok_0.deep_view(),
                shared.device_buffers,
            )
        }),
{
    let given = reply->Ok_0.deep_view();
    if given.buffers.len() == without(device_ids, owner_device_id).len() + 1 {
        law_devices_see_their_own_view(owner_device_id, device_ids, label, given);
    }
}

/// The buffer is what devices answered for an activation: nobody sees it where nobody was
/// asked, else what comes of their answer.
pub open spec fn is_answered(
    plan: VulkanDistributedActivationBufferPlanModel,
    index: int,
    reply: Option<SharingReply>,
    buffer: VulkanDistributedActivationBufferModel,
) -> bool {
    let planned = plan.allocations[index];
    &&& buffer.planned == planned
    &&& reply is None ==> buffer.device_buffers.dom() == Set::<Seq<char>>::empty()
        && buffer.route == plan.route
    &&& reply is Some ==> reply->0 is Ok && buffer.route == reply->0->Ok_0.deep_view().route
        && see_their_answer(
        planned.owner_device_id,
        planned.device_ids,
        reply->0->Ok_0.deep_view(),
        buffer.device_buffers,
    )
}

/// The buffer is what devices answered for a reduction.
pub open spec fn is_answered_reduction(
    plan: VulkanDistributedActivationBufferPlanModel,
    index: int,
    reply: Option<SharingReply>,
    buffer: VulkanDistributedReductionBufferModel,
) -> bool {
    let planned = plan.reduction_allocations[index];
    &&& buffer.planned == planned
    &&& reply is Some
    &&& reply->0 is Ok
    &&& buffer.route == reply->0->Ok_0.deep_view().route
    &&& see_their_answer(
        planned.owner_device_id,
        planned.device_ids,
        reply->0->Ok_0.deep_view(),
        buffer.device_buffers,
    )
}

proof fn lemma_reduced(
    plan: VulkanDistributedActivationBufferPlanModel,
    lanes: usize,
    tally: SharedTally,
    replies: Seq<Option<SharingReply>>,
)
    requires
        replies.len() <= plan.reduction_allocations.len(),
        reduced_after(plan, lanes, tally, replies) is Ok,
    ensures
        ({
            let found = reduced_after(plan, lanes, tally, replies)->Ok_0;
            let seen = Seq::new(found.0.len(), |i: int| found.0[i].device_buffers);
            &&& found.0.len() == replies.len()
            &&& found.1.bytes == tally.bytes + reduction_bytes(plan, replies.len() as int) * lanes
            &&& found.1.imports == tally.imports + imports_of(seen, replies.len() as int)
            &&& forall|i: int|
                0 <= i < replies.len() ==> is_answered_reduction(
                    plan,
                    i,
                    replies[i],
                    #[trigger] found.0[i],
                )
        }),
    decreases replies.len(),
{
    if replies.len() > 0 {
        let rest = replies.drop_last();
        let count = rest.len() as int;
        lemma_reduced(plan, lanes, tally, rest);
        let before = reduced_after(plan, lanes, tally, rest)->Ok_0;
        let found = reduced_after(plan, lanes, tally, replies)->Ok_0;
        let seen_before = Seq::new(before.0.len(), |i: int| before.0[i].device_buffers);
        let seen = Seq::new(found.0.len(), |i: int| found.0[i].device_buffers);
        lemma_imports_same(seen_before, seen, count);
        let planned = plan.reduction_allocations[count];
        let some = reduction_bytes(plan, count) as int;
        let own = planned.byte_capacity as int;
        assert((some + own) * lanes == some * lanes + own * lanes) by (nonlinear_arith);
        assert(own * lanes >= 0) by (nonlinear_arith)
            requires
                own >= 0,
                lanes >= 0,
        ;
        lemma_answer_seen(
            planned.owner_device_id,
            planned.device_ids,
            (own * lanes) as usize,
            crate::activation_buffers::reduction_label(planned),
            replies[count]->0,
        );
        assert(is_answered_reduction(plan, count, replies[count], found.0[count]));
        assert forall|i: int| 0 <= i < replies.len() implies is_answered_reduction(
            plan,
            i,
            replies[i],
            #[trigger] found.0[i],
        ) by {
            if i < count {
                assert(found.0[i] == before.0[i]);
                assert(rest[i] == replies[i]);
            }
        }
    } else {
        assert(0 * lanes == 0) by (nonlinear_arith);
    }
}

proof fn lemma_private_devices(
    planned: VulkanDistributedPrivateIntermediateBufferAllocationModel,
    lanes: usize,
    bytes: usize,
    replies: Seq<Option<PrivateReply>>,
)
    requires
        replies.len() <= planned.devices.len(),
        private_devices_after(planned, lanes, bytes, replies) is Ok,
    ensures
        ({
            let found = private_devices_after(planned, lanes, bytes, replies)->Ok_0;
            forall|i: int|
                0 <= i < replies.len() ==> is_answered_private(
                    planned,
                    i,
                    #[trigger] replies[i],
                    found.0,
                )
        }),
    decreases replies.len(),
{
    if replies.len() > 0 {
        let rest = replies.drop_last();
        let count = rest.len() as int;
        lemma_private_devices(planned, lanes, bytes, rest);
        let before = private_devices_after(planned, lanes, bytes, rest)->Ok_0;
        let found = private_devices_after(planned, lanes, bytes, replies)->Ok_0;
        assert forall|i: int| 0 <= i < replies.len() implies is_answered_private(
            planned,
            i,
            #[trigger] replies[i],
            found.0,
        ) by {
            if i < count {
                assert(rest[i] == replies[i]);
                assert(is_answered_private(planned, i, rest[i], before.0));
            }
        }
    }
}

/// A device keeps the buffer that it answered for an intermediate.
pub open spec fn is_answered_private(
    planned: VulkanDistributedPrivateIntermediateBufferAllocationModel,
    place: int,
    reply: Option<PrivateReply>,
    seen: Map<Seq<char>, VulkanResidentBuffer>,
) -> bool {
    &&& reply is Some
    &&& reply->0 is Ok
    &&& seen.contains_key(planned.devices[place].device_id)
    &&& seen[planned.devices[place].device_id] == reply->0->Ok_0
}

proof fn lemma_privates(
    plan: VulkanDistributedActivationBufferPlanModel,
    lanes: usize,
    replies: Seq<Seq<Option<PrivateReply>>>,
)
    requires
        replies.len() <= plan.private_intermediate_allocations.len(),
        forall|i: int|
            0 <= i < replies.len() ==> (#[trigger] replies[i]).len()
                == plan.private_intermediate_allocations[i].devices.len(),
        privates_after(plan, lanes, replies) is Ok,
    ensures
        ({
            let found = privates_after(plan, lanes, replies)->Ok_0;
            &&& found.0.len() == replies.len()
            &&& forall|i: int|
                0 <= i < replies.len() ==> (#[trigger] found.0[i]).planned
                    == plan.private_intermediate_allocations[i]
            &&& forall|i: int, d: int|
                #![trigger replies[i][d]]
                0 <= i < replies.len() && 0 <= d < replies[i].len() ==> is_answered_private(
                    plan.private_intermediate_allocations[i],
                    d,
                    replies[i][d],
                    found.0[i].device_buffers,
                )
        }),
    decreases replies.len(),
{
    if replies.len() > 0 {
        let rest = replies.drop_last();
        let count = rest.len() as int;
        assert forall|i: int| 0 <= i < rest.len() implies (#[trigger] rest[i]).len()
            == plan.private_intermediate_allocations[i].devices.len() by {
            assert(rest[i] == replies[i]);
        }
        assert(replies[count].len() == plan.private_intermediate_allocations[count].devices.len());
        lemma_privates(plan, lanes, rest);
        let before = privates_after(plan, lanes, rest)->Ok_0;
        let found = privates_after(plan, lanes, replies)->Ok_0;
        lemma_private_devices(
            plan.private_intermediate_allocations[count],
            lanes,
            before.1,
            replies[count],
        );
        assert forall|i: int, d: int|
            #![trigger replies[i][d]]
            0 <= i < replies.len() && 0 <= d < replies[i].len() implies is_answered_private(
            plan.private_intermediate_allocations[i],
            d,
            replies[i][d],
            found.0[i].device_buffers,
        ) by {
            if i < count {
                assert(rest[i][d] == replies[i][d]);
                assert(found.0[i] == before.0[i]);
            } else {
                let own = replies[count];
                assert(own[d] == replies[i][d]);
            }
        }
        assert forall|i: int| 0 <= i < replies.len() implies (#[trigger] found.0[i]).planned
            == plan.private_intermediate_allocations[i] by {
            if i < count {
                assert(found.0[i] == before.0[i]);
            }
        }
    }
}

/// Allocated activations are what devices answered, allocation by allocation of the plan, for
/// as many lanes. Their shared bytes are those of the plan for every lane, and so are their
/// private bytes; every device that sees a shared buffer is counted as an import.
pub proof fn law_allocated_activations_follow_the_plan(
    plan: VulkanDistributedActivationBufferPlanModel,
    lanes: usize,
    sharings: Seq<Option<SharingReply>>,
    reductions: Seq<Option<SharingReply>>,
    privates: Seq<Seq<Option<PrivateReply>>>,
)
    requires
        sharings.len() == plan.allocations.len(),
        reductions.len() == plan.reduction_allocations.len(),
        privates.len() == plan.private_intermediate_allocations.len(),
        forall|i: int|
            0 <= i < privates.len() ==> (#[trigger] privates[i]).len()
                == plan.private_intermediate_allocations[i].devices.len(),
        allocation_outcome(plan, lanes, sharings, reductions, privates) is Ok,
    ensures
        ({
            let buffers = allocation_outcome(plan, lanes, sharings, reductions, privates)->Ok_0;
            let shared = Seq::new(
                buffers.allocations.len(),
                |i: int| buffers.allocations[i].device_buffers,
            );
            let reduced = Seq::new(
                buffers.reduction_allocations.len(),
                |i: int| buffers.reduction_allocations[i].device_buffers,
            );
            &&& lanes > 0
            &&& buffers.plan == plan
            &&& buffers.lane_capacity == lanes
            &&& buffers.allocations.len() == plan.allocations.len()
            &&& forall|i: int|
                0 <= i < plan.allocations.len() ==> is_answered(
                    plan,
                    i,
                    sharings[i],
                    #[trigger] buffers.allocations[i],
                )
            &&& buffers.reduction_allocations.len() == plan.reduction_allocations.len()
            &&& forall|i: int|
                0 <= i < plan.reduction_allocations.len() ==> is_answered_reduction(
                    plan,
                    i,
                    reductions[i],
                    #[trigger] buffers.reduction_allocations[i],
                )
            &&& buffers.private_intermediate_allocations.len()
                == plan.private_intermediate_allocations.len()
            &&& forall|i: int, d: int|
                #![trigger privates[i][d]]
                0 <= i < privates.len() && 0 <= d < privates[i].len() ==> is_answered_private(
                    plan.private_intermediate_allocations[i],
                    d,
                    privates[i][d],
                    buffers.private_intermediate_allocations[i].device_buffers,
                )
            &&& buffers.total_shared_byte_capacity == (activation_bytes(
                plan,
                plan.allocations.len() as int,
            ) + reduction_bytes(plan, plan.reduction_allocations.len() as int)) * lanes
            &&& buffers.total_private_byte_capacity == plan.total_private_byte_capacity * lanes
            &&& buffers.import_count == imports_of(shared, shared.len() as int) + imports_of(
                reduced,
                reduced.len() as int,
            )
            &&& buffers.allocation_count == plan.allocation_count
        }),
{
    lemma_shared(plan, lanes, sharings);
    let shared = shared_after(plan, lanes, sharings)->Ok_0;
    lemma_reduced(plan, lanes, shared.1, reductions);
    lemma_privates(plan, lanes, privates);
    let left = activation_bytes(plan, plan.allocations.len() as int);
    let right = reduction_bytes(plan, plan.reduction_allocations.len() as int);
    assert((left + right) * lanes == left * lanes + right * lanes) by (nonlinear_arith);
}

/// Devices are asked for the partial outputs of a reduction as large as they are for all
/// lanes, on its owner and for the other devices.
pub proof fn law_reductions_are_asked_for_all_lanes<
    D,
    S: Fn(
        D,
        VulkanSharingTarget,
        &String,
        &Vec<String>,
        usize,
        VulkanSharedResidentBufferRoute,
    ) -> (D, SharingReply),
>(
    share: S,
    plan: VulkanDistributedActivationBufferPlanModel,
    lanes: usize,
    index: int,
    reply: Option<SharingReply>,
    from: D,
    to: D,
)
    requires
        0 <= index < plan.reduction_allocations.len(),
        reduction_gave(share, plan, lanes, index, reply, from, to),
    ensures
        reply is None <==> plan.reduction_allocations[index].byte_capacity * lanes > usize::MAX,
        reply is None ==> from == to,
        reply is Some ==> exists|owner: &String, peers: &Vec<String>, bytes: usize|
            owner@ == plan.reduction_allocations[index].owner_device_id && peers.deep_view()
                == without(
                plan.reduction_allocations[index].device_ids,
                plan.reduction_allocations[index].owner_device_id,
            ) && bytes == plan.reduction_allocations[index].byte_capacity * lanes
                && #[trigger] call_ensures(
                share,
                (
                    from,
                    VulkanSharingTarget::Reduction { index: index as usize },
                    owner,
                    peers,
                    bytes,
                    plan.route,
                ),
                (to, reply->0),
            ),
{
    law_peers_are_the_other_devices(
        plan.reduction_allocations[index].owner_device_id,
        plan.reduction_allocations[index].device_ids,
    );
}

} // verus!
