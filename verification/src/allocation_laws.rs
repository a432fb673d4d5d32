//! Laws of the allocation of activations on devices.
use vstd::prelude::*;

use crate::activation_buffers::{
    activation_gave, allocation_asked, allocation_can_give, allocation_outcome, buffers_agree,
    private_device_gave, private_devices_after, private_devices_gave, private_gave,
    privates_after, privates_are_whole, privates_gave, privates_stopped, reduced_after,
    reduction_gave, reductions_gave, shared_after, sharing_gave, sharings_gave, PrivateReply,
    SharedTally, SharingReply, VulkanDistributedActivationBuffers, VulkanSharingTarget,
};
use crate::activation_plans::{
    VulkanDistributedActivationBufferPlan, VulkanDistributedActivationBufferPlanModel,
    VulkanDistributedPrivateIntermediateBufferAllocationModel,
    VulkanDistributedPrivateIntermediateDeviceAllocationModel,
};
use crate::errors::VulkanDistributedActivationBufferError;
use crate::execution_plans::VulkanSharedResidentBufferRoute;

verus! {

/// Devices give one answer to one question, and are left in one way.
pub open spec fn answers_are_settled<
    D,
    S: Fn(
        D,
        VulkanSharingTarget,
        &String,
        &Vec<String>,
        usize,
        VulkanSharedResidentBufferRoute,
    ) -> (D, SharingReply),
    C: Fn(D, usize, usize, &String, usize) -> (D, PrivateReply),
>(share: S, create: C) -> bool {
    &&& forall|
        from: D,
        target: VulkanSharingTarget,
        owner: Seq<char>,
        device_ids: Seq<Seq<char>>,
        bytes: int,
        route: VulkanSharedResidentBufferRoute,
        left_to: D,
        left: SharingReply,
        right_to: D,
        right: SharingReply,
    |
        #![trigger sharing_gave(share, from, target, owner, device_ids, bytes, route, left_to, left), sharing_gave(share, from, target, owner, device_ids, bytes, route, right_to, right)]
        sharing_gave(share, from, target, owner, device_ids, bytes, route, left_to, left)
            && sharing_gave(
            share,
            from,
            target,
            owner,
            device_ids,
            bytes,
            route,
            right_to,
            right,
        ) ==> left_to == right_to && left == right
    &&& forall|
        from: D,
        allocation: usize,
        place: usize,
        device: VulkanDistributedPrivateIntermediateDeviceAllocationModel,
        lane_capacity: usize,
        left_to: D,
        left: PrivateReply,
        right_to: D,
        right: PrivateReply,
    |
        #![trigger private_gave(create, from, allocation, place, device, lane_capacity, left_to, left), private_gave(create, from, allocation, place, device, lane_capacity, right_to, right)]
        private_gave(create, from, allocation, place, device, lane_capacity, left_to, left)
            && private_gave(
            create,
            from,
            allocation,
            place,
            device,
            lane_capacity,
            right_to,
            right,
        ) ==> left_to == right_to && left == right
}

proof fn lemma_shared_prefix(
    plan: VulkanDistributedActivationBufferPlanModel,
    lane_capacity: usize,
    replies: Seq<Option<SharingReply>>,
    count: int,
)
    requires
        0 <= count <= replies.len(),
        shared_after(plan, lane_capacity, replies) is Ok,
    ensures
        shared_after(plan, lane_capacity, replies.take(count)) is Ok,
    decreases replies.len(),
{
    if count == replies.len() {
        assert(replies.take(count) =~= replies);
    } else {
        lemma_shared_prefix(plan, lane_capacity, replies.drop_last(), count);
        assert(replies.drop_last().take(count) =~= replies.take(count));
    }
}

proof fn lemma_reduced_prefix(
    plan: VulkanDistributedActivationBufferPlanModel,
    lane_capacity: usize,
    tally: SharedTally,
    replies: Seq<Option<SharingReply>>,
    count: int,
)
    requires
        0 <= count <= replies.len(),
        reduced_after(plan, lane_capacity, tally, replies) is Ok,
    ensures
        reduced_after(plan, lane_capacity, tally, replies.take(count)) is Ok,
    decreases replies.len(),
{
    if count == replies.len() {
        assert(replies.take(count) =~= replies);
    } else {
        lemma_reduced_prefix(plan, lane_capacity, tally, replies.drop_last(), count);
        assert(replies.drop_last().take(count) =~= replies.take(count));
    }
}

proof fn lemma_private_devices_prefix(
    planned: VulkanDistributedPrivateIntermediateBufferAllocationModel,
    lane_capacity: usize,
    bytes: usize,
    replies: Seq<Option<PrivateReply>>,
    count: int,
)
    requires
        0 <= count <= replies.len(),
        private_devices_after(planned, lane_capacity, bytes, replies) is Ok,
    ensures
        private_devices_after(planned, lane_capacity, bytes, replies.take(count)) is Ok,
    decreases replies.len(),
{
    if count == replies.len() {
        assert(replies.take(count) =~= replies);
    } else {
        lemma_private_devices_prefix(planned, lane_capacity, bytes, replies.drop_last(), count);
        assert(replies.drop_last().take(count) =~= replies.take(count));
    }
}

proof fn lemma_privates_prefix(
    plan: VulkanDistributedActivationBufferPlanModel,
    lane_capacity: usize,
    replies: Seq<Seq<Option<PrivateReply>>>,
    count: int,
)
    requires
        0 <= count <= replies.len(),
        privates_after(plan, lane_capacity, replies) is Ok,
    ensures
        privates_after(plan, lane_capacity, replies.take(count)) is Ok,
    decreases replies.len(),
{
    if count == replies.len() {
        assert(replies.take(count) =~= replies);
    } else {
        lemma_privates_prefix(plan, lane_capacity, replies.drop_last(), count);
        assert(replies.drop_last().take(count) =~= replies.take(count));
    }
}

proof fn lemma_sharings_begin<
    D,
    S: Fn(
        D,
        VulkanSharingTarget,
        &String,
        &Vec<String>,
        usize,
        VulkanSharedResidentBufferRoute,
    ) -> (D, SharingReply),
>(
    share: S,
    plan: VulkanDistributedActivationBufferPlanModel,
    lane_capacity: usize,
    defer_graph_edges: bool,
    replies: Seq<Option<SharingReply>>,
    count: int,
    from: D,
    to: D,
) -> (at: D)
    requires
        0 <= count <= replies.len(),
        sharings_gave(share, plan, lane_capacity, defer_graph_edges, replies, from, to),
    ensures
        sharings_gave(share, plan, lane_capacity, defer_graph_edges, replies.take(count), from, at),
    decreases replies.len(),
{
    if count == replies.len() {
        assert(replies.take(count) =~= replies);
        to
    } else {
        let last = choose|last: D| #[trigger]
            activation_gave(
                share,
                plan,
                lane_capacity,
                defer_graph_edges,
                replies.len() - 1,
                replies.last(),
                last,
                to,
            ) && sharings_gave(
                share,
                plan,
                lane_capacity,
                defer_graph_edges,
                replies.drop_last(),
                from,
                last,
            );
        assert(replies.drop_last().take(count) =~= replies.take(count));
        lemma_sharings_begin(
            share,
            plan,
            lane_capacity,
            defer_graph_edges,
            replies.drop_last(),
            count,
            from,
            last,
        )
    }
}

proof fn lemma_sharings_agree<
    D,
    S: Fn(
        D,
        VulkanSharingTarget,
        &String,
        &Vec<String>,
        usize,
        VulkanSharedResidentBufferRoute,
    ) -> (D, SharingReply),
    C: Fn(D, usize, usize, &String, usize) -> (D, PrivateReply),
>(
    share: S,
    create: C,
    plan: VulkanDistributedActivationBufferPlanModel,
    lane_capacity: usize,
    defer_graph_edges: bool,
    left: Seq<Option<SharingReply>>,
    right: Seq<Option<SharingReply>>,
    from: D,
    to: (D, D),
)
    requires
        answers_are_settled(share, create),
        left.len() == right.len(),
        sharings_gave(share, plan, lane_capacity, defer_graph_edges, left, from, to.0),
        sharings_gave(share, plan, lane_capacity, defer_graph_edges, right, from, to.1),
    ensures
        left == right,
        to.0 == to.1,
    decreases left.len(),
{
    if left.len() > 0 {
        let last = left.len() - 1;
        let at = choose|at: D| #[trigger]
            activation_gave(
                share,
                plan,
                lane_capacity,
                defer_graph_edges,
                last,
                left.last(),
                at,
                to.0,
            ) && sharings_gave(
                share,
                plan,
                lane_capacity,
                defer_graph_edges,
                left.drop_last(),
                from,
                at,
            );
        let beside = choose|at: D| #[trigger]
            activation_gave(
                share,
                plan,
                lane_capacity,
                defer_graph_edges,
                last,
                right.last(),
                at,
                to.1,
            ) && sharings_gave(
                share,
                plan,
                lane_capacity,
                defer_graph_edges,
                right.drop_last(),
                from,
                at,
            );
        lemma_sharings_agree(
            share,
            create,
            plan,
            lane_capacity,
            defer_graph_edges,
            left.drop_last(),
            right.drop_last(),
            from,
            (at, beside),
        );
        assert(to.0 == to.1 && left.last() == right.last());
        assert(left =~= left.drop_last().push(left.last()));
        assert(right =~= right.drop_last().push(right.last()));
    }
    assert(left =~= right);
}

/// The answers for activations are no fewer on the left than on the right.
proof fn lemma_sharings_reach<
    D,
    S: Fn(
        D,
        VulkanSharingTarget,
        &String,
        &Vec<String>,
        usize,
        VulkanSharedResidentBufferRoute,
    ) -> (D, SharingReply),
    C: Fn(D, usize, usize, &String, usize) -> (D, PrivateReply),
>(
    share: S,
    create: C,
    plan: VulkanDistributedActivationBufferPlanModel,
    lane_capacity: usize,
    defer_graph_edges: bool,
    left: Seq<Option<SharingReply>>,
    right: Seq<Option<SharingReply>>,
    from: D,
    to: (D, D),
)
    requires
        answers_are_settled(share, create),
        sharings_gave(share, plan, lane_capacity, defer_graph_edges, left, from, to.0),
        sharings_gave(share, plan, lane_capacity, defer_graph_edges, right, from, to.1),
        shared_after(plan, lane_capacity, left) is Ok ==> left.len() == plan.allocations.len(),
        right.len() > 0 ==> shared_after(plan, lane_capacity, right.drop_last()) is Ok,
    ensures
        left.len() >= right.len(),
{
    if left.len() < right.len() {
        let count = left.len() as int;
        let at = lemma_sharings_begin(
            share,
            plan,
            lane_capacity,
            defer_graph_edges,
            right,
            count,
            from,
            to.1,
        );
        lemma_sharings_agree(
            share,
            create,
            plan,
            lane_capacity,
            defer_graph_edges,
            left,
            right.take(count),
            from,
            (to.0, at),
        );
        lemma_shared_prefix(plan, lane_capacity, right.drop_last(), count);
        assert(right.drop_last().take(count) =~= right.take(count));
    }
}

proof fn lemma_reductions_begin<
    D,
    S: Fn(
        D,
        VulkanSharingTarget,
        &String,
        &Vec<String>,
        usize,
        VulkanSharedResidentBufferRoute,
    ) -> (D, SharingReply),
>(
    share: S,
    plan: VulkanDistributedActivationBufferPlanModel,
    lane_capacity: usize,
    replies: Seq<Option<SharingReply>>,
    count: int,
    from: D,
    to: D,
) -> (at: D)
    requires
        0 <= count <= replies.len(),
        reductions_gave(share, plan, lane_capacity, replies, from, to),
    ensures
        reductions_gave(share, plan, lane_capacity, replies.take(count), from, at),
    decreases replies.len(),
{
    if count == replies.len() {
        assert(replies.take(count) =~= replies);
        to
    } else {
        let last = choose|last: D| #[trigger]
            reduction_gave(
                share,
                plan,
                lane_capacity,
                replies.len() - 1,
                replies.last(),
                last,
                to,
            ) && reductions_gave(share, plan, lane_capacity, replies.drop_last(), from, last);
        assert(replies.drop_last().take(count) =~= replies.take(count));
        lemma_reductions_begin(
            share,
            plan,
            lane_capacity,
            replies.drop_last(),
            count,
            from,
            last,
        )
    }
}

proof fn lemma_reductions_agree<
    D,
    S: Fn(
        D,
        VulkanSharingTarget,
        &String,
        &Vec<String>,
        usize,
        VulkanSharedResidentBufferRoute,
    ) -> (D, SharingReply),
    C: Fn(D, usize, usize, &String, usize) -> (D, PrivateReply),
>(
    share: S,
    create: C,
    plan: VulkanDistributedActivationBufferPlanModel,
    lane_capacity: usize,
    left: Seq<Option<SharingReply>>,
    right: Seq<Option<SharingReply>>,
    from: D,
    to: (D, D),
)
    requires
        answers_are_settled(share, create),
        left.len() == right.len(),
        reductions_gave(share, plan, lane_capacity, left, from, to.0),
        reductions_gave(share, plan, lane_capacity, right, from, to.1),
    ensures
        left == right,
        to.0 == to.1,
    decreases left.len(),
{
    if left.len() > 0 {
        let last = left.len() - 1;
        let at = choose|at: D| #[trigger]
            reduction_gave(share, plan, lane_capacity, last, left.last(), at, to.0)
                && reductions_gave(share, plan, lane_capacity, left.drop_last(), from, at);
        let beside = choose|at: D| #[trigger]
            reduction_gave(share, plan, lane_capacity, last, right.last(), at, to.1)
                && reductions_gave(share, plan, lane_capacity, right.drop_last(), from, at);
        lemma_reductions_agree(
            share,
            create,
            plan,
            lane_capacity,
            left.drop_last(),
            right.drop_last(),
            from,
            (at, beside),
        );
        assert(to.0 == to.1 && left.last() == right.last());
        assert(left =~= left.drop_last().push(left.last()));
        assert(right =~= right.drop_last().push(right.last()));
    }
    assert(left =~= right);
}

proof fn lemma_reductions_reach<
    D,
    S: Fn(
        D,
        VulkanSharingTarget,
        &String,
        &Vec<String>,
        usize,
        VulkanSharedResidentBufferRoute,
    ) -> (D, SharingReply),
    C: Fn(D, usize, usize, &String, usize) -> (D, PrivateReply),
>(
    share: S,
    create: C,
    plan: VulkanDistributedActivationBufferPlanModel,
    lane_capacity: usize,
    tally: SharedTally,
    left: Seq<Option<SharingReply>>,
    right: Seq<Option<SharingReply>>,
    from: D,
    to: (D, D),
)
    requires
        answers_are_settled(share, create),
        reductions_gave(share, plan, lane_capacity, left, from, to.0),
        reductions_gave(share, plan, lane_capacity, right, from, to.1),
        reduced_after(plan, lane_capacity, tally, left) is Ok ==> left.len()
            == plan.reduction_allocations.len(),
        right.len() > 0 ==> reduced_after(plan, lane_capacity, tally, right.drop_last()) is Ok,
    ensures
        left.len() >= right.len(),
{
    if left.len() < right.len() {
        let count = left.len() as int;
        let at = lemma_reductions_begin(share, plan, lane_capacity, right, count, from, to.1);
        lemma_reductions_agree(
            share,
            create,
            plan,
            lane_capacity,
            left,
            right.take(count),
            from,
            (to.0, at),
        );
        lemma_reduced_prefix(plan, lane_capacity, tally, right.drop_last(), count);
        assert(right.drop_last().take(count) =~= right.take(count));
    }
}

proof fn lemma_private_devices_begin<
    D,
    C: Fn(D, usize, usize, &String, usize) -> (D, PrivateReply),
>(
    create: C,
    allocation: usize,
    planned: VulkanDistributedPrivateIntermediateBufferAllocationModel,
    lane_capacity: usize,
    replies: Seq<Option<PrivateReply>>,
    count: int,
    from: D,
    to: D,
) -> (at: D)
    requires
        0 <= count <= replies.len(),
        private_devices_gave(create, allocation, planned, lane_capacity, replies, from, to),
    ensures
        private_devices_gave(
            create,
            allocation,
            planned,
            lane_capacity,
            replies.take(count),
            from,
            at,
        ),
    decreases replies.len(),
{
    if count == replies.len() {
        assert(replies.take(count) =~= replies);
        to
    } else {
        let last = choose|last: D| #[trigger]
            private_device_gave(
                create,
                allocation,
                planned,
                lane_capacity,
                replies.len() - 1,
                replies.last(),
                last,
                to,
            ) && private_devices_gave(
                create,
                allocation,
                planned,
                lane_capacity,
                replies.drop_last(),
                from,
                last,
            );
        assert(replies.drop_last().take(count) =~= replies.take(count));
        lemma_private_devices_begin(
            create,
            allocation,
            planned,
            lane_capacity,
            replies.drop_last(),
            count,
            from,
            last,
        )
    }
}

proof fn lemma_private_devices_agree<
    D,
    S: Fn(
        D,
        VulkanSharingTarget,
        &String,
        &Vec<String>,
        usize,
        VulkanSharedResidentBufferRoute,
    ) -> (D, SharingReply),
    C: Fn(D, usize, usize, &String, usize) -> (D, PrivateReply),
>(
    share: S,
    create: C,
    allocation: usize,
    planned: VulkanDistributedPrivateIntermediateBufferAllocationModel,
    lane_capacity: usize,
    left: Seq<Option<PrivateReply>>,
    right: Seq<Option<PrivateReply>>,
    from: D,
    to: (D, D),
)
    requires
        answers_are_settled(share, create),
        left.len() == right.len(),
        private_devices_gave(create, allocation, planned, lane_capacity, left, from, to.0),
        private_devices_gave(create, allocation, planned, lane_capacity, right, from, to.1),
    ensures
        left == right,
        to.0 == to.1,
    decreases left.len(),
{
    if left.len() > 0 {
        let last = left.len() - 1;
        let at = choose|at: D| #[trigger]
            private_device_gave(
                create,
                allocation,
                planned,
                lane_capacity,
                last,
                left.last(),
                at,
                to.0,
            ) && private_devices_gave(
                create,
                allocation,
                planned,
                lane_capacity,
                left.drop_last(),
                from,
                at,
            );
        let beside = choose|at: D| #[trigger]
            private_device_gave(
                create,
                allocation,
                planned,
                lane_capacity,
                last,
                right.last(),
                at,
                to.1,
            ) && private_devices_gave(
                create,
                allocation,
                planned,
                lane_capacity,
                right.drop_last(),
                from,
                at,
            );
        lemma_private_devices_agree(
            share,
            create,
            allocation,
            planned,
            lane_capacity,
            left.drop_last(),
            right.drop_last(),
            from,
            (at, beside),
        );
        assert(to.0 == to.1 && left.last() == right.last());
        assert(left =~= left.drop_last().push(left.last()));
        assert(right =~= right.drop_last().push(right.last()));
    }
    assert(left =~= right);
}

proof fn lemma_private_devices_reach<
    D,
    S: Fn(
        D,
        VulkanSharingTarget,
        &String,
        &Vec<String>,
        usize,
        VulkanSharedResidentBufferRoute,
    ) -> (D, SharingReply),
    C: Fn(D, usize, usize, &String, usize) -> (D, PrivateReply),
>(
    share: S,
    create: C,
    allocation: usize,
    planned: VulkanDistributedPrivateIntermediateBufferAllocationModel,
    lane_capacity: usize,
    bytes: usize,
    left: Seq<Option<PrivateReply>>,
    right: Seq<Option<PrivateReply>>,
    from: D,
    to: (D, D),
)
    requires
        answers_are_settled(share, create),
        private_devices_gave(create, allocation, planned, lane_capacity, left, from, to.0),
        private_devices_gave(create, allocation, planned, lane_capacity, right, from, to.1),
        private_devices_after(planned, lane_capacity, bytes, left) is Ok ==> left.len()
            == planned.devices.len(),
        right.len() > 0 ==> private_devices_after(
            planned,
            lane_capacity,
            bytes,
            right.drop_last(),
        ) is Ok,
    ensures
        left.len() >= right.len(),
{
    if left.len() < right.len() {
        let count = left.len() as int;
        let at = lemma_private_devices_begin(
            create,
            allocation,
            planned,
            lane_capacity,
            right,
            count,
            from,
            to.1,
        );
        lemma_private_devices_agree(
            share,
            create,
            allocation,
            planned,
            lane_capacity,
            left,
            right.take(count),
            from,
            (to.0, at),
        );
        lemma_private_devices_prefix(planned, lane_capacity, bytes, right.drop_last(), count);
        assert(right.drop_last().take(count) =~= right.take(count));
    }
}

proof fn lemma_privates_begin<
    D,
    C: Fn(D, usize, usize, &String, usize) -> (D, PrivateReply),
>(
    create: C,
    plan: VulkanDistributedActivationBufferPlanModel,
    lane_capacity: usize,
    replies: Seq<Seq<Option<PrivateReply>>>,
    count: int,
    from: D,
    to: D,
) -> (at: D)
    requires
        0 <= count <= replies.len(),
        privates_gave(create, plan, lane_capacity, replies, from, to),
    ensures
        privates_gave(create, plan, lane_capacity, replies.take(count), from, at),
    decreases replies.len(),
{
    if count == replies.len() {
        assert(replies.take(count) =~= replies);
        to
    } else {
        let last = choose|last: D| #[trigger]
            private_devices_gave(
                create,
                (replies.len() - 1) as usize,
                plan.private_intermediate_allocations[replies.len() - 1],
                lane_capacity,
                replies.last(),
                last,
                to,
            ) && privates_gave(create, plan, lane_capacity, replies.drop_last(), from, last);
        assert(replies.drop_last().take(count) =~= replies.take(count));
        lemma_privates_begin(
            create,
            plan,
            lane_capacity,
            replies.drop_last(),
            count,
            from,
            last,
        )
    }
}

/// The last list of answers holds all that were given for its intermediate, up to the
/// first error.
pub open spec fn last_is_whole(
    plan: VulkanDistributedActivationBufferPlanModel,
    lane_capacity: usize,
    replies: Seq<Seq<Option<PrivateReply>>>,
) -> bool {
    replies.len() > 0 ==> {
        let planned = plan.private_intermediate_allocations[replies.len() - 1];
        let earlier = privates_after(plan, lane_capacity, replies.drop_last());
        earlier is Ok && (private_devices_after(
            planned,
            lane_capacity,
            earlier->Ok_0.1,
            replies.last(),
        ) is Ok ==> replies.last().len() == planned.devices.len())
    }
}

/// The first lists of answers are whole, and stop where the answers stop.
proof fn lemma_begun_privates(
    plan: VulkanDistributedActivationBufferPlanModel,
    lane_capacity: usize,
    replies: Seq<Seq<Option<PrivateReply>>>,
    count: int,
)
    requires
        privates_are_whole(plan, lane_capacity, replies),
        privates_stopped(plan, lane_capacity, replies),
        0 <= count <= replies.len(),
    ensures
        privates_stopped(plan, lane_capacity, replies.take(count)),
        last_is_whole(plan, lane_capacity, replies.take(count)),
{
    let begun = replies.take(count);
    if count == replies.len() {
        assert(begun =~= replies);
        if count > 0 {
            let planned = plan.private_intermediate_allocations[count - 1];
            let earlier = privates_after(plan, lane_capacity, replies.drop_last());
            if private_devices_after(planned, lane_capacity, earlier->Ok_0.1, replies.last()) is Ok {
                assert(privates_after(plan, lane_capacity, replies) is Ok);
                assert(replies[count - 1].len() == planned.devices.len());
            }
        }
    } else if count > 0 {
        lemma_privates_prefix(plan, lane_capacity, replies.drop_last(), count);
        assert(replies.drop_last().take(count) =~= begun);
        assert(replies[count - 1] == begun.last());
        let planned = plan.private_intermediate_allocations[count - 1];
        let bytes = privates_after(plan, lane_capacity, begun.drop_last())->Ok_0.1;
        let own = begun.last();
        if own.len() > 0 {
            lemma_private_devices_prefix(planned, lane_capacity, bytes, own, own.len() - 1);
            assert(own.take(own.len() - 1) =~= own.drop_last());
        }
    }
}

proof fn lemma_privates_agree<
    D,
    S: Fn(
        D,
        VulkanSharingTarget,
        &String,
        &Vec<String>,
        usize,
        VulkanSharedResidentBufferRoute,
    ) -> (D, SharingReply),
    C: Fn(D, usize, usize, &String, usize) -> (D, PrivateReply),
>(
    share: S,
    create: C,
    plan: VulkanDistributedActivationBufferPlanModel,
    lane_capacity: usize,
    left: Seq<Seq<Option<PrivateReply>>>,
    right: Seq<Seq<Option<PrivateReply>>>,
    from: D,
    to: (D, D),
)
    requires
        answers_are_settled(share, create),
        left.len() == right.len(),
        privates_gave(create, plan, lane_capacity, left, from, to.0),
        privates_gave(create, plan, lane_capacity, right, from, to.1),
        forall|count: int|
            0 <= count <= left.len() ==> privates_stopped(
                plan,
                lane_capacity,
                #[trigger] left.take(count),
            ) && last_is_whole(plan, lane_capacity, left.take(count)),
        forall|count: int|
            0 <= count <= right.len() ==> privates_stopped(
                plan,
                lane_capacity,
                #[trigger] right.take(count),
            ) && last_is_whole(plan, lane_capacity, right.take(count)),
    ensures
        left == right,
        to.0 == to.1,
    decreases left.len(),
{
    if left.len() > 0 {
        let last = left.len() - 1;
        let planned = plan.private_intermediate_allocations[last];
        let at = choose|at: D| #[trigger]
            private_devices_gave(
                create,
                last as usize,
                planned,
                lane_capacity,
                left.last(),
                at,
                to.0,
            ) && privates_gave(create, plan, lane_capacity, left.drop_last(), from, at);
        let beside = choose|at: D| #[trigger]
            private_devices_gave(
                create,
                last as usize,
                planned,
                lane_capacity,
                right.last(),
                at,
                to.1,
            ) && privates_gave(create, plan, lane_capacity, right.drop_last(), from, at);
        assert forall|count: int| 0 <= count <= last implies privates_stopped(
            plan,
            lane_capacity,
            #[trigger] left.drop_last().take(count),
        ) && last_is_whole(plan, lane_capacity, left.drop_last().take(count)) by {
            assert(left.drop_last().take(count) =~= left.take(count));
        }
        assert forall|count: int| 0 <= count <= last implies privates_stopped(
            plan,
            lane_capacity,
            #[trigger] right.drop_last().take(count),
        ) && last_is_whole(plan, lane_capacity, right.drop_last().take(count)) by {
            assert(right.drop_last().take(count) =~= right.take(count));
        }
        lemma_privates_agree(
            share,
            create,
            plan,
            lane_capacity,
            left.drop_last(),
            right.drop_last(),
            from,
            (at, beside),
        );
        assert(left.take(last + 1) =~= left);
        assert(right.take(last + 1) =~= right);
        let bytes = privates_after(plan, lane_capacity, left.drop_last())->Ok_0.1;
        lemma_private_devices_reach(
            share,
            create,
            last as usize,
            planned,
            lane_capacity,
            bytes,
            left.last(),
            right.last(),
            at,
            to,
        );
        lemma_private_devices_reach(
            share,
            create,
            last as usize,
            planned,
            lane_capacity,
            bytes,
            right.last(),
            left.last(),
            at,
            (to.1, to.0),
        );
        lemma_private_devices_agree(
            share,
            create,
            last as usize,
            planned,
            lane_capacity,
            left.last(),
            right.last(),
            at,
            to,
        );
        assert(left =~= left.drop_last().push(left.last()));
        assert(right =~= right.drop_last().push(right.last()));
    }
    assert(left =~= right);
}

proof fn lemma_privates_reach<
    D,
    S: Fn(
        D,
        VulkanSharingTarget,
        &String,
        &Vec<String>,
        usize,
        VulkanSharedResidentBufferRoute,
    ) -> (D, SharingReply),
    C: Fn(D, usize, usize, &String, usize) -> (D, PrivateReply),
>(
    share: S,
    create: C,
    plan: VulkanDistributedActivationBufferPlanModel,
    lane_capacity: usize,
    left: Seq<Seq<Option<PrivateReply>>>,
    right: Seq<Seq<Option<PrivateReply>>>,
    from: D,
    to: (D, D),
)
    requires
        answers_are_settled(share, create),
        privates_gave(create, plan, lane_capacity, left, from, to.0),
        privates_gave(create, plan, lane_capacity, right, from, to.1),
        privates_are_whole(plan, lane_capacity, left),
        privates_are_whole(plan, lane_capacity, right),
        privates_stopped(plan, lane_capacity, left),
        privates_stopped(plan, lane_capacity, right),
        privates_after(plan, lane_capacity, left) is Ok ==> left.len()
            == plan.private_intermediate_allocations.len(),
    ensures
        left.len() >= right.len(),
        left.len() == right.len() ==> left == right && to.0 == to.1,
{
    assert forall|count: int| 0 <= count <= left.len() implies privates_stopped(
        plan,
        lane_capacity,
        #[trigger] left.take(count),
    ) && last_is_whole(plan, lane_capacity, left.take(count)) by {
        lemma_begun_privates(plan, lane_capacity, left, count);
    }
    assert forall|count: int| 0 <= count <= right.len() implies privates_stopped(
        plan,
        lane_capacity,
        #[trigger] right.take(count),
    ) && last_is_whole(plan, lane_capacity, right.take(count)) by {
        lemma_begun_privates(plan, lane_capacity, right, count);
    }
    if left.len() < right.len() {
        let end = left.len() as int;
        let at = lemma_privates_begin(create, plan, lane_capacity, right, end, from, to.1);
        let begun = right.take(end);
        assert forall|count: int| 0 <= count <= begun.len() implies privates_stopped(
            plan,
            lane_capacity,
            #[trigger] begun.take(count),
        ) && last_is_whole(plan, lane_capacity, begun.take(count)) by {
            assert(begun.take(count) =~= right.take(count));
        }
        lemma_privates_agree(
            share,
            create,
            plan,
            lane_capacity,
            left,
            begun,
            from,
            (to.0, at),
        );
        lemma_privates_prefix(plan, lane_capacity, right.drop_last(), end);
        assert(right.drop_last().take(end) =~= begun);
    } else if left.len() == right.len() {
        lemma_privates_agree(share, create, plan, lane_capacity, left, right, from, to);
    }
}

/// The answers of devices fix the course of an allocation: who is asked for what, and
/// what becomes of it. Two allocations of a plan with the same devices ask the same
/// questions, get the same answers and leave the devices in the same way.
pub proof fn law_answers_fix_the_allocation<
    D,
    S: Fn(
        D,
        VulkanSharingTarget,
        &String,
        &Vec<String>,
        usize,
        VulkanSharedResidentBufferRoute,
    ) -> (D, SharingReply),
    C: Fn(D, usize, usize, &String, usize) -> (D, PrivateReply),
>(
    share: S,
    create: C,
    plan: VulkanDistributedActivationBufferPlanModel,
    lane_capacity: usize,
    defer_graph_edges: bool,
    left: (Seq<Option<SharingReply>>, Seq<Option<SharingReply>>, Seq<Seq<Option<PrivateReply>>>),
    right: (Seq<Option<SharingReply>>, Seq<Option<SharingReply>>, Seq<Seq<Option<PrivateReply>>>),
    from: D,
    to: (D, D),
)
    requires
        answers_are_settled(share, create),
        allocation_asked(
            share,
            create,
            plan,
            lane_capacity,
            defer_graph_edges,
            left.0,
            left.1,
            left.2,
            from,
            to.0,
        ),
        allocation_asked(
            share,
            create,
            plan,
            lane_capacity,
            defer_graph_edges,
            right.0,
            right.1,
            right.2,
            from,
            to.1,
        ),
    ensures
        left == right,
        to.0 == to.1,
{
    let (shared, reduced) = choose|shared: D, reduced: D|
        #![trigger sharings_gave(share, plan, lane_capacity, defer_graph_edges, left.0, from, shared), privates_gave(create, plan, lane_capacity, left.2, reduced, to.0)]
        sharings_gave(share, plan, lane_capacity, defer_graph_edges, left.0, from, shared)
            && reductions_gave(share, plan, lane_capacity, left.1, shared, reduced)
            && privates_gave(create, plan, lane_capacity, left.2, reduced, to.0);
    let (shared2, reduced2) = choose|shared: D, reduced: D|
        #![trigger sharings_gave(share, plan, lane_capacity, defer_graph_edges, right.0, from, shared), privates_gave(create, plan, lane_capacity, right.2, reduced, to.1)]
        sharings_gave(share, plan, lane_capacity, defer_graph_edges, right.0, from, shared)
            && reductions_gave(share, plan, lane_capacity, right.1, shared, reduced)
            && privates_gave(create, plan, lane_capacity, right.2, reduced, to.1);
    if lane_capacity > 0 {
        lemma_sharings_reach(
            share,
            create,
            plan,
            lane_capacity,
            defer_graph_edges,
            left.0,
            right.0,
            from,
            (shared, shared2),
        );
        lemma_sharings_reach(
            share,
            create,
            plan,
            lane_capacity,
            defer_graph_edges,
            right.0,
            left.0,
            from,
            (shared2, shared),
        );
    }
    lemma_sharings_agree(
        share,
        create,
        plan,
        lane_capacity,
        defer_graph_edges,
        left.0,
        right.0,
        from,
        (shared, shared2),
    );
    let found = shared_after(plan, lane_capacity, left.0);
    let tally = found->Ok_0.1;
    if lane_capacity > 0 && found is Ok {
        lemma_reductions_reach(
            share,
            create,
            plan,
            lane_capacity,
            tally,
            left.1,
            right.1,
            shared,
            (reduced, reduced2),
        );
        lemma_reductions_reach(
            share,
            create,
            plan,
            lane_capacity,
            tally,
            right.1,
            left.1,
            shared,
            (reduced2, reduced),
        );
    }
    lemma_reductions_agree(
        share,
        create,
        plan,
        lane_capacity,
        left.1,
        right.1,
        shared,
        (reduced, reduced2),
    );
    if lane_capacity > 0 && found is Ok && reduced_after(
        plan,
        lane_capacity,
        tally,
        left.1,
    ) is Ok {
        lemma_privates_reach(
            share,
            create,
            plan,
            lane_capacity,
            left.2,
            right.2,
            reduced,
            to,
        );
        lemma_privates_reach(
            share,
            create,
            plan,
            lane_capacity,
            right.2,
            left.2,
            reduced,
            (to.1, to.0),
        );
    } else {
        assert(left.2 =~= right.2);
    }
}

/// Two outcomes are the same: equal buffers, or errors with one text.
pub open spec fn outcomes_agree(
    left: Result<VulkanDistributedActivationBuffers, VulkanDistributedActivationBufferError>,
    right: Result<VulkanDistributedActivationBuffers, VulkanDistributedActivationBufferError>,
) -> bool {
    match (left, right) {
        (Ok(left), Ok(right)) => left.deep_view() == right.deep_view(),
        (Err(left), Err(right)) => left.0@ == right.0@,
        _ => false,
    }
}

/// Allocating a plan is allocating it for one lane: with the same devices both give the
/// same buffers, counts and bytes, or the same error, and leave the devices in the same
/// way.
pub proof fn law_plain_allocations_have_one_lane<
    D,
    S: Fn(
        D,
        VulkanSharingTarget,
        &String,
        &Vec<String>,
        usize,
        VulkanSharedResidentBufferRoute,
    ) -> (D, SharingReply),
    C: Fn(D, usize, usize, &String, usize) -> (D, PrivateReply),
>(
    share: &S,
    create: &C,
    plan: &VulkanDistributedActivationBufferPlan,
    devices: D,
    plain: (Result<VulkanDistributedActivationBuffers, VulkanDistributedActivationBufferError>, D),
    laned: (Result<VulkanDistributedActivationBuffers, VulkanDistributedActivationBufferError>, D),
)
    requires
        answers_are_settled(*share, *create),
        call_ensures(
            VulkanDistributedActivationBuffers::allocate::<D, S, C>,
            (plan, devices, share, create),
            plain,
        ),
        call_ensures(
            VulkanDistributedActivationBuffers::allocate_for_lanes::<D, S, C>,
            (plan, 1, devices, share, create),
            laned,
        ),
    ensures
        outcomes_agree(plain.0, laned.0),
        plain.1 == laned.1,
        plain.0 is Ok ==> plain.0->Ok_0.lane_capacity == 1,
{
    let model = plan.deep_view();
    assert(allocation_can_give(
        *share,
        *create,
        model,
        1,
        false,
        plain.0,
        devices,
        plain.1,
    ));
    assert(allocation_can_give(
        *share,
        *create,
        model,
        1,
        false,
        laned.0,
        devices,
        laned.1,
    ));
    let left = choose|
        sharings: Seq<Option<SharingReply>>,
        reductions: Seq<Option<SharingReply>>,
        privates: Seq<Seq<Option<PrivateReply>>>,
    | #[trigger]
        allocation_asked(
            *share,
            *create,
            model,
            1,
            false,
            sharings,
            reductions,
            privates,
            devices,
            plain.1,
        ) && buffers_agree(
            plain.0,
            allocation_outcome(model, 1, sharings, reductions, privates),
        );
    let right = choose|
        sharings: Seq<Option<SharingReply>>,
        reductions: Seq<Option<SharingReply>>,
        privates: Seq<Seq<Option<PrivateReply>>>,
    | #[trigger]
        allocation_asked(
            *share,
            *create,
            model,
            1,
            false,
            sharings,
            reductions,
            privates,
            devices,
            laned.1,
        ) && buffers_agree(
            laned.0,
            allocation_outcome(model, 1, sharings, reductions, privates),
        );
    law_answers_fix_the_allocation(
        *share,
        *create,
        model,
        1,
        false,
        left,
        right,
        devices,
        (plain.1, laned.1),
    );
}

} // verus!
