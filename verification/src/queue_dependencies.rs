//! The order of work on the queues of an owner and its helpers.
use vstd::prelude::*;

use crate::errors::{VulkanDistributedDispatchRunnerError, VulkanError};
use crate::text::{debug_text, decimal, decimal_text, join5, quoted};
use crate::values::PlainValue;

verus! {

/// A timeline semaphore of a device.
#[derive(Clone, Copy, Debug, PartialEq, Eq, Structural)]
pub struct VulkanTimelineSemaphore {
    pub device_handle: u64,
    pub semaphore_handle: u64,
}

impl DeepView for VulkanTimelineSemaphore {
    type V = VulkanTimelineSemaphore;

    open spec fn deep_view(&self) -> VulkanTimelineSemaphore {
        *self
    }
}

impl PlainValue for VulkanTimelineSemaphore {
    fn duplicate(&self) -> (copy: Self) {
        *self
    }

    fn same(&self, other: &Self) -> (equal: bool) {
        *self == *other
    }
}

/// A value of a timeline semaphore that a queue signals or waits for.
#[derive(Clone, Copy, Debug, PartialEq, Eq, Structural)]
pub struct VulkanTimelineSemaphorePoint {
    pub semaphore: VulkanTimelineSemaphore,
    pub value: u64,
}

impl DeepView for VulkanTimelineSemaphorePoint {
    type V = VulkanTimelineSemaphorePoint;

    open spec fn deep_view(&self) -> VulkanTimelineSemaphorePoint {
        *self
    }
}

impl PlainValue for VulkanTimelineSemaphorePoint {
    fn duplicate(&self) -> (copy: Self) {
        *self
    }

    fn same(&self, other: &Self) -> (equal: bool) {
        *self == *other
    }
}

/// A semaphore that one device signals, and the same one as another device sees it.
#[derive(Clone, Copy, Debug, PartialEq, Eq, Structural)]
pub struct VulkanTimelineLink {
    pub source: VulkanTimelineSemaphore,
    pub wait: VulkanTimelineSemaphore,
}

impl DeepView for VulkanTimelineLink {
    type V = VulkanTimelineLink;

    open spec fn deep_view(&self) -> VulkanTimelineLink {
        *self
    }
}

impl PlainValue for VulkanTimelineLink {
    fn duplicate(&self) -> (copy: Self) {
        *self
    }

    fn same(&self, other: &Self) -> (equal: bool) {
        *self == *other
    }
}

/// The semaphores by which an owner hands work to a helper and gets it back: the
/// owner signals that inputs are ready, the helper that outputs are done.
#[derive(Debug, PartialEq, Eq)]
pub struct VulkanDistributedQueueSynchronization {
    pub device_id: String,
    pub ready_source: VulkanTimelineSemaphore,
    pub ready_wait: VulkanTimelineSemaphore,
    pub done_source: VulkanTimelineSemaphore,
    pub done_wait: VulkanTimelineSemaphore,
}

/// The model of [`VulkanDistributedQueueSynchronization`].
pub struct VulkanDistributedQueueSynchronizationModel {
    pub device_id: Seq<char>,
    pub ready_source: VulkanTimelineSemaphore,
    pub ready_wait: VulkanTimelineSemaphore,
    pub done_source: VulkanTimelineSemaphore,
    pub done_wait: VulkanTimelineSemaphore,
}

impl DeepView for VulkanDistributedQueueSynchronization {
    type V = VulkanDistributedQueueSynchronizationModel;

    open spec fn deep_view(&self) -> VulkanDistributedQueueSynchronizationModel {
        VulkanDistributedQueueSynchronizationModel {
            device_id: self.device_id.deep_view(),
            ready_source: self.ready_source.deep_view(),
            ready_wait: self.ready_wait.deep_view(),
            done_source: self.done_source.deep_view(),
            done_wait: self.done_wait.deep_view(),
        }
    }
}

impl Clone for VulkanDistributedQueueSynchronization {
    fn clone(&self) -> (copy: Self)
        ensures
            copy.deep_view() == self.deep_view(),
    {
        self.duplicate()
    }
}

impl PlainValue for VulkanDistributedQueueSynchronization {
    fn duplicate(&self) -> (copy: Self) {
        VulkanDistributedQueueSynchronization {
            device_id: self.device_id.duplicate(),
            ready_source: self.ready_source.duplicate(),
            ready_wait: self.ready_wait.duplicate(),
            done_source: self.done_source.duplicate(),
            done_wait: self.done_wait.duplicate(),
        }
    }

    fn same(&self, other: &Self) -> (equal: bool) {
        self.device_id.same(&other.device_id)
            && self.ready_source.same(&other.ready_source)
            && self.ready_wait.same(&other.ready_wait)
            && self.done_source.same(&other.done_source)
            && self.done_wait.same(&other.done_wait)
    }
}

/// Why the queues of two devices cannot be put in order.
pub open spec fn synchronization_fault(
    owner_supported: bool,
    helper_supported: bool,
    owner_device_id: Seq<char>,
    helper_device_id: Seq<char>,
    label: Seq<char>,
) -> Option<Seq<char>> {
    if owner_supported && helper_supported {
        None
    } else {
        Some(
            label + " requires persistent opaque-file timeline semaphores on owner "@ + debug_text(
                owner_device_id,
            ) + " and helper "@ + debug_text(helper_device_id),
        )
    }
}

/// Making a semaphore with a value on a device gave an outcome and left the devices so.
pub open spec fn semaphore_gave<
    D,
    N: Fn(D, &String, u64) -> (D, Result<VulkanTimelineSemaphore, String>),
>(
    create: N,
    from: D,
    device_id: Seq<char>,
    initial_value: u64,
    to: D,
    outcome: Result<VulkanTimelineSemaphore, String>,
) -> bool {
    exists|device: &String|
        device@ == device_id && #[trigger] call_ensures(
            create,
            (from, device, initial_value),
            (to, outcome),
        )
}

/// A semaphore with a value may be made on a device.
pub open spec fn semaphore_can_be_made<
    D,
    N: Fn(D, &String, u64) -> (D, Result<VulkanTimelineSemaphore, String>),
>(
    create: N,
    at: D,
    device_id: Seq<char>,
    initial_value: u64,
) -> bool {
    forall|device: &String|
        device@ == device_id ==> #[trigger] call_requires(create, (at, device, initial_value))
}

/// Letting a device see the semaphore of another device through its own gave an outcome
/// and left the devices so.
pub open spec fn import_gave<
    D,
    I: Fn(D, &String, &VulkanTimelineSemaphore, &String, &VulkanTimelineSemaphore) -> (
        D,
        Result<(), String>,
    ),
>(
    import: I,
    from: D,
    waiting_device_id: Seq<char>,
    wait: VulkanTimelineSemaphore,
    source_device_id: Seq<char>,
    source: VulkanTimelineSemaphore,
    to: D,
    outcome: Result<(), String>,
) -> bool {
    exists|
        waiting: &String,
        own: &VulkanTimelineSemaphore,
        signalling: &String,
        other: &VulkanTimelineSemaphore,
    |
        waiting@ == waiting_device_id && *own == wait && signalling@ == source_device_id && *other
            == source && #[trigger] call_ensures(
            import,
            (from, waiting, own, signalling, other),
            (to, outcome),
        )
}

/// A device may be let see the semaphore of another device through its own.
pub open spec fn import_can_be_made<
    D,
    I: Fn(D, &String, &VulkanTimelineSemaphore, &String, &VulkanTimelineSemaphore) -> (
        D,
        Result<(), String>,
    ),
>(
    import: I,
    at: D,
    waiting_device_id: Seq<char>,
    wait: VulkanTimelineSemaphore,
    source_device_id: Seq<char>,
    source: VulkanTimelineSemaphore,
) -> bool {
    forall|
        waiting: &String,
        own: &VulkanTimelineSemaphore,
        signalling: &String,
        other: &VulkanTimelineSemaphore,
    |
        waiting@ == waiting_device_id && *own == wait && signalling@ == source_device_id && *other
            == source ==> #[trigger] call_requires(import, (at, waiting, own, signalling, other))
}

/// The two semaphores of a link were made with the value zero: one on the device that
/// signals, and one on the device that waits.
pub open spec fn ends_were_made<
    D,
    X: Fn(D, &String, u64) -> (D, Result<VulkanTimelineSemaphore, String>),
    N: Fn(D, &String, u64) -> (D, Result<VulkanTimelineSemaphore, String>),
>(
    create_exportable: X,
    create: N,
    source_device_id: Seq<char>,
    waiting_device_id: Seq<char>,
    link: VulkanTimelineLink,
    from: D,
    to: D,
) -> bool {
    exists|at: D| #[trigger]
        semaphore_gave(
            create_exportable,
            from,
            source_device_id,
            0,
            at,
            Ok::<VulkanTimelineSemaphore, String>(link.source),
        ) && semaphore_gave(
            create,
            at,
            waiting_device_id,
            0,
            to,
            Ok::<VulkanTimelineSemaphore, String>(link.wait),
        )
}

/// A link was made: both of its semaphores with the value zero, and the device that waits
/// sees through its own the one that is signalled.
pub open spec fn link_was_made<
    D,
    X: Fn(D, &String, u64) -> (D, Result<VulkanTimelineSemaphore, String>),
    N: Fn(D, &String, u64) -> (D, Result<VulkanTimelineSemaphore, String>),
    I: Fn(D, &String, &VulkanTimelineSemaphore, &String, &VulkanTimelineSemaphore) -> (
        D,
        Result<(), String>,
    ),
>(
    create_exportable: X,
    create: N,
    import: I,
    source_device_id: Seq<char>,
    waiting_device_id: Seq<char>,
    link: VulkanTimelineLink,
    from: D,
    to: D,
) -> bool {
    exists|at: D| #[trigger]
        ends_were_made(
            create_exportable,
            create,
            source_device_id,
            waiting_device_id,
            link,
            from,
            at,
        ) && import_gave(
            import,
            at,
            waiting_device_id,
            link.wait,
            source_device_id,
            link.source,
            to,
            Ok::<(), String>(()),
        )
}

/// A link could not be made: a semaphore was not made, or could not be seen.
pub open spec fn link_failed<
    D,
    X: Fn(D, &String, u64) -> (D, Result<VulkanTimelineSemaphore, String>),
    N: Fn(D, &String, u64) -> (D, Result<VulkanTimelineSemaphore, String>),
    I: Fn(D, &String, &VulkanTimelineSemaphore, &String, &VulkanTimelineSemaphore) -> (
        D,
        Result<(), String>,
    ),
>(
    create_exportable: X,
    create: N,
    import: I,
    source_device_id: Seq<char>,
    waiting_device_id: Seq<char>,
    reason: String,
    from: D,
    to: D,
) -> bool {
    ||| semaphore_gave(
        create_exportable,
        from,
        source_device_id,
        0,
        to,
        Err::<VulkanTimelineSemaphore, String>(reason),
    )
    ||| exists|at: D, source: VulkanTimelineSemaphore| #[trigger]
        semaphore_gave(
            create_exportable,
            from,
            source_device_id,
            0,
            at,
            Ok::<VulkanTimelineSemaphore, String>(source),
        ) && semaphore_gave(
            create,
            at,
            waiting_device_id,
            0,
            to,
            Err::<VulkanTimelineSemaphore, String>(reason),
        )
    ||| exists|at: D, link: VulkanTimelineLink| #[trigger]
        ends_were_made(
            create_exportable,
            create,
            source_device_id,
            waiting_device_id,
            link,
            from,
            at,
        ) && import_gave(
            import,
            at,
            waiting_device_id,
            link.wait,
            source_device_id,
            link.source,
            to,
            Err::<(), String>(reason),
        )
}

/// A link may be asked for: the semaphore that is signalled, then the one that is waited
/// for, then that the one is seen through the other. Nothing else is asked.
pub open spec fn link_can_be_asked<
    D,
    X: Fn(D, &String, u64) -> (D, Result<VulkanTimelineSemaphore, String>),
    N: Fn(D, &String, u64) -> (D, Result<VulkanTimelineSemaphore, String>),
    I: Fn(D, &String, &VulkanTimelineSemaphore, &String, &VulkanTimelineSemaphore) -> (
        D,
        Result<(), String>,
    ),
>(
    create_exportable: X,
    create: N,
    import: I,
    source_device_id: Seq<char>,
    waiting_device_id: Seq<char>,
    from: D,
) -> bool {
    &&& semaphore_can_be_made(create_exportable, from, source_device_id, 0)
    &&& forall|at: D, source: VulkanTimelineSemaphore| #[trigger]
        semaphore_gave(
            create_exportable,
            from,
            source_device_id,
            0,
            at,
            Ok::<VulkanTimelineSemaphore, String>(source),
        ) ==> semaphore_can_be_made(create, at, waiting_device_id, 0)
    &&& forall|at: D, link: VulkanTimelineLink| #[trigger]
        ends_were_made(
            create_exportable,
            create,
            source_device_id,
            waiting_device_id,
            link,
            from,
            at,
        ) ==> import_can_be_made(
            import,
            at,
            waiting_device_id,
            link.wait,
            source_device_id,
            link.source,
        )
}

/// Makes a link from a device that signals to a device that waits.
fn make_link<
    D,
    X: Fn(D, &String, u64) -> (D, Result<VulkanTimelineSemaphore, String>),
    N: Fn(D, &String, u64) -> (D, Result<VulkanTimelineSemaphore, String>),
    I: Fn(D, &String, &VulkanTimelineSemaphore, &String, &VulkanTimelineSemaphore) -> (
        D,
        Result<(), String>,
    ),
>(
    source_device_id: &String,
    waiting_device_id: &String,
    devices: D,
    create_exportable: &X,
    create: &N,
    import: &I,
) -> (result: (Result<VulkanTimelineLink, String>, D))
    requires
        link_can_be_asked(
            *create_exportable,
            *create,
            *import,
            source_device_id@,
            waiting_device_id@,
            devices,
        ),
    ensures
        match result.0 {
            Ok(link) => link_was_made(
                *create_exportable,
                *create,
                *import,
                source_device_id@,
                waiting_device_id@,
                link,
                devices,
                result.1,
            ),
            Err(reason) => link_failed(
                *create_exportable,
                *create,
                *import,
                source_device_id@,
                waiting_device_id@,
                reason,
                devices,
                result.1,
            ),
        },
{
    let ghost from = devices;
    let (held, exported) = create_exportable(devices, source_device_id, 0);
    let ghost exported_at = held;
    assert(call_ensures(
        *create_exportable,
        (from, source_device_id, 0u64),
        (exported_at, exported),
    ));
    assert(semaphore_gave(
        *create_exportable,
        from,
        source_device_id@,
        0,
        exported_at,
        exported,
    ));
    let source = match exported {
        Err(reason) => {
            return (Err(reason), held);
        },
        Ok(source) => source,
    };
    let (kept, created) = create(held, waiting_device_id, 0);
    let ghost created_at = kept;
    assert(call_ensures(
        *create,
        (exported_at, waiting_device_id, 0u64),
        (created_at, created),
    ));
    assert(semaphore_gave(*create, exported_at, waiting_device_id@, 0, created_at, created));
    let wait = match created {
        Err(reason) => {
            return (Err(reason), kept);
        },
        Ok(wait) => wait,
    };
    let link = VulkanTimelineLink { source, wait };
    assert(semaphore_gave(
        *create_exportable,
        from,
        source_device_id@,
        0,
        exported_at,
        Ok::<VulkanTimelineSemaphore, String>(link.source),
    ));
    assert(ends_were_made(
        *create_exportable,
        *create,
        source_device_id@,
        waiting_device_id@,
        link,
        from,
        created_at,
    ));
    let (left, imported) = import(
        kept,
        waiting_device_id,
        &link.wait,
        source_device_id,
        &link.source,
    );
    assert(call_ensures(
        *import,
        (created_at, waiting_device_id, &link.wait, source_device_id, &link.source),
        (left, imported),
    ));
    assert(import_gave(
        *import,
        created_at,
        waiting_device_id@,
        link.wait,
        source_device_id@,
        link.source,
        left,
        imported,
    ));
    match imported {
        Err(reason) => (Err(reason), left),
        Ok(unit) => {
            assert(unit == ());
            (Ok(link), left)
        },
    }
}

/// The semaphores between an owner and a helper may be asked for: none where a device
/// lacks support, first the link on which the owner signals, and once it is made the one
/// on which the helper signals.
pub open spec fn synchronization_can_be_asked<
    D,
    X: Fn(D, &String, u64) -> (D, Result<VulkanTimelineSemaphore, String>),
    N: Fn(D, &String, u64) -> (D, Result<VulkanTimelineSemaphore, String>),
    I: Fn(D, &String, &VulkanTimelineSemaphore, &String, &VulkanTimelineSemaphore) -> (
        D,
        Result<(), String>,
    ),
>(
    create_exportable: X,
    create: N,
    import: I,
    owner_supported: bool,
    helper_supported: bool,
    owner_device_id: Seq<char>,
    helper_device_id: Seq<char>,
    from: D,
) -> bool {
    owner_supported && helper_supported ==> {
        &&& link_can_be_asked(
            create_exportable,
            create,
            import,
            owner_device_id,
            helper_device_id,
            from,
        )
        &&& forall|at: D, ready: VulkanTimelineLink| #[trigger]
            link_was_made(
                create_exportable,
                create,
                import,
                owner_device_id,
                helper_device_id,
                ready,
                from,
                at,
            ) ==> link_can_be_asked(
                create_exportable,
                create,
                import,
                helper_device_id,
                owner_device_id,
                at,
            )
    }
}

/// The link on which the owner signals.
pub open spec fn ready_link(
    synchronization: VulkanDistributedQueueSynchronization,
) -> VulkanTimelineLink {
    VulkanTimelineLink {
        source: synchronization.ready_source,
        wait: synchronization.ready_wait,
    }
}

/// The link on which the helper signals.
pub open spec fn done_link(
    synchronization: VulkanDistributedQueueSynchronization,
) -> VulkanTimelineLink {
    VulkanTimelineLink { source: synchronization.done_source, wait: synchronization.done_wait }
}

/// The semaphores between an owner and a helper are those that the devices made, first
/// the link on which the owner signals, then the one on which the helper signals.
pub open spec fn synchronization_can_give<
    D,
    X: Fn(D, &String, u64) -> (D, Result<VulkanTimelineSemaphore, String>),
    N: Fn(D, &String, u64) -> (D, Result<VulkanTimelineSemaphore, String>),
    I: Fn(D, &String, &VulkanTimelineSemaphore, &String, &VulkanTimelineSemaphore) -> (
        D,
        Result<(), String>,
    ),
>(
    create_exportable: X,
    create: N,
    import: I,
    owner_supported: bool,
    helper_supported: bool,
    owner_device_id: Seq<char>,
    helper_device_id: Seq<char>,
    label: Seq<char>,
    outcome: Result<VulkanDistributedQueueSynchronization, VulkanError>,
    from: D,
    to: D,
) -> bool {
    match synchronization_fault(
        owner_supported,
        helper_supported,
        owner_device_id,
        helper_device_id,
        label,
    ) {
        Some(message) => from == to && outcome is Err && outcome->Err_0.0@ == message,
        None => match outcome {
            Ok(synchronization) => {
                &&& synchronization.device_id@ == helper_device_id
                &&& exists|at: D| #[trigger]
                    link_was_made(
                        create_exportable,
                        create,
                        import,
                        owner_device_id,
                        helper_device_id,
                        ready_link(synchronization),
                        from,
                        at,
                    ) && link_was_made(
                        create_exportable,
                        create,
                        import,
                        helper_device_id,
                        owner_device_id,
                        done_link(synchronization),
                        at,
                        to,
                    )
            },
            Err(error) => link_failed(
                create_exportable,
                create,
                import,
                owner_device_id,
                helper_device_id,
                error.0,
                from,
                to,
            ) || exists|at: D, ready: VulkanTimelineLink| #[trigger]
                link_was_made(
                    create_exportable,
                    create,
                    import,
                    owner_device_id,
                    helper_device_id,
                    ready,
                    from,
                    at,
                ) && link_failed(
                    create_exportable,
                    create,
                    import,
                    helper_device_id,
                    owner_device_id,
                    error.0,
                    at,
                    to,
                ),
        },
    }
}

impl VulkanDistributedQueueSynchronization {
    /// Connects the queues of an owner and a helper, where both devices support it.
    pub fn new<
        D,
        X: Fn(D, &String, u64) -> (D, Result<VulkanTimelineSemaphore, String>),
        N: Fn(D, &String, u64) -> (D, Result<VulkanTimelineSemaphore, String>),
        I: Fn(D, &String, &VulkanTimelineSemaphore, &String, &VulkanTimelineSemaphore) -> (
            D,
            Result<(), String>,
        ),
    >(
        owner_supported: bool,
        helper_supported: bool,
        owner_device_id: &String,
        helper_device_id: &String,
        label: &str,
        devices: D,
        create_exportable: &X,
        create: &N,
        import: &I,
    ) -> (result: (Result<Self, VulkanError>, D))
        requires
            synchronization_can_be_asked(
                *create_exportable,
                *create,
                *import,
                owner_supported,
                helper_supported,
                owner_device_id@,
                helper_device_id@,
                devices,
            ),
        ensures
            synchronization_can_give(
                *create_exportable,
                *create,
                *import,
                owner_supported,
                helper_supported,
                owner_device_id@,
                helper_device_id@,
                label@,
                result.0,
                devices,
                result.1,
            ),
    {
        if !owner_supported || !helper_supported {
            return (
                Err(
                    VulkanError(
                        join5(
                            label,
                            " requires persistent opaque-file timeline semaphores on owner ",
                            quoted(owner_device_id.as_str()).as_str(),
                            " and helper ",
                            quoted(helper_device_id.as_str()).as_str(),
                        ),
                    ),
                ),
                devices,
            );
        }
        let ghost from = devices;
        let (readying, held) = make_link(
            owner_device_id,
            helper_device_id,
            devices,
            create_exportable,
            create,
            import,
        );
        let ghost at = held;
        let ready = match readying {
            Err(reason) => {
                return (Err(VulkanError(reason)), held);
            },
            Ok(link) => link,
        };
        let (finishing, left) = make_link(
            helper_device_id,
            owner_device_id,
            held,
            create_exportable,
            create,
            import,
        );
        let done = match finishing {
            Err(reason) => {
                return (Err(VulkanError(reason)), left);
            },
            Ok(link) => link,
        };
        let synchronization = VulkanDistributedQueueSynchronization {
            device_id: helper_device_id.clone(),
            ready_source: ready.source,
            ready_wait: ready.wait,
            done_source: done.source,
            done_wait: done.wait,
        };
        assert(ready_link(synchronization) == ready);
        assert(done_link(synchronization) == done);
        assert(link_was_made(
            *create_exportable,
            *create,
            *import,
            owner_device_id@,
            helper_device_id@,
            ready_link(synchronization),
            from,
            at,
        ));
        (Ok(synchronization), left)
    }

    /// What the owner signals when the inputs are ready.
    pub fn owner_ready(&self, value: u64) -> (point: VulkanTimelineSemaphorePoint)
        ensures
            point == (VulkanTimelineSemaphorePoint { semaphore: self.ready_source, value }),
    {
        VulkanTimelineSemaphorePoint { semaphore: self.ready_source, value }
    }

    /// What the helper waits for until the inputs are ready.
    pub fn helper_ready(&self, value: u64) -> (point: VulkanTimelineSemaphorePoint)
        ensures
            point == (VulkanTimelineSemaphorePoint { semaphore: self.ready_wait, value }),
    {
        VulkanTimelineSemaphorePoint { semaphore: self.ready_wait, value }
    }

    /// What the helper signals when the outputs are done.
    pub fn helper_done(&self, value: u64) -> (point: VulkanTimelineSemaphorePoint)
        ensures
            point == (VulkanTimelineSemaphorePoint { semaphore: self.done_source, value }),
    {
        VulkanTimelineSemaphorePoint { semaphore: self.done_source, value }
    }

    /// What the owner waits for until the outputs are done.
    pub fn owner_done(&self, value: u64) -> (point: VulkanTimelineSemaphorePoint)
        ensures
            point == (VulkanTimelineSemaphorePoint { semaphore: self.done_wait, value }),
    {
        VulkanTimelineSemaphorePoint { semaphore: self.done_wait, value }
    }
}

/// Counts the values that the semaphores of a dispatch take.
#[derive(Clone, Copy, Debug, PartialEq, Eq, Structural)]
pub struct VulkanDistributedDependencyClock {
    next_value: u64,
}

impl DeepView for VulkanDistributedDependencyClock {
    type V = u64;

    closed spec fn deep_view(&self) -> u64 {
        self.next_value
    }
}

impl PlainValue for VulkanDistributedDependencyClock {
    fn duplicate(&self) -> (copy: Self) {
        *self
    }

    fn same(&self, other: &Self) -> (equal: bool) {
        self.next_value == other.next_value
    }
}

/// The value that a clock gives out and the clock's next one, or the text of the
/// error.
pub open spec fn reserved(
    clock: u64,
    owner_device_id: Seq<char>,
    dispatch_index: usize,
) -> Result<(u64, u64), Seq<char>> {
    if clock == u64::MAX {
        Err(
            "distributed dispatch "@ + decimal_text(dispatch_index as nat) + " owned by "@
                + debug_text(owner_device_id) + " exhausted its timeline semaphore values"@,
        )
    } else {
        Ok((clock, (clock + 1) as u64))
    }
}

/// Why a clock cannot go on by a number of values.
pub open spec fn advance_fault(
    clock: u64,
    count: u64,
    owner_device_id: Seq<char>,
    dispatch_index: usize,
) -> Option<Seq<char>> {
    if clock + count > u64::MAX {
        Some(
            "distributed dispatch "@ + decimal_text(dispatch_index as nat) + " owned by "@
                + debug_text(owner_device_id)
                + " exhausts its timeline semaphore values during replay"@,
        )
    } else {
        None
    }
}

impl VulkanDistributedDependencyClock {
    /// A clock that has given out no value; the first one is one.
    pub fn new() -> (clock: Self)
        ensures
            clock.deep_view() == 1,
    {
        VulkanDistributedDependencyClock { next_value: 1 }
    }

    /// The value that is given out next.
    pub fn next_value(&self) -> (value: u64)
        ensures
            value == self.deep_view(),
    {
        self.next_value
    }

    /// Gives out a value that was not given out before.
    pub fn reserve(&mut self, owner_device_id: &str, dispatch_index: usize) -> (outcome: Result<
        u64,
        VulkanDistributedDispatchRunnerError,
    >)
        ensures
            match outcome {
                Ok(value) => reserved(old(self).deep_view(), owner_device_id@, dispatch_index)
                    == Ok::<(u64, u64), Seq<char>>((value, final(self).deep_view())),
                Err(error) => reserved(old(self).deep_view(), owner_device_id@, dispatch_index)
                    == Err::<(u64, u64), Seq<char>>(error.0@) && *final(self) == *old(self),
            },
    {
        let value: u64 = self.next_value;
        match value.checked_add(1) {
            None => Err(
                VulkanDistributedDispatchRunnerError(
                    join5(
                        "distributed dispatch ",
                        decimal(dispatch_index).as_str(),
                        " owned by ",
                        quoted(owner_device_id).as_str(),
                        " exhausted its timeline semaphore values",
                    ),
                ),
            ),
            Some(next) => {
                self.next_value = next;
                Ok(value)
            },
        }
    }

    /// Checks that the clock can go on by a number of values.
    pub fn validate_advance(
        &self,
        count: u64,
        owner_device_id: &str,
        dispatch_index: usize,
    ) -> (outcome: Result<(), VulkanDistributedDispatchRunnerError>)
        ensures
            match outcome {
                Ok(_) => advance_fault(
                    self.deep_view(),
                    count,
                    owner_device_id@,
                    dispatch_index,
                ) is None,
                Err(error) => advance_fault(
                    self.deep_view(),
                    count,
                    owner_device_id@,
                    dispatch_index,
                ) == Some(error.0@),
            },
    {
        match self.next_value.checked_add(count) {
            None => Err(
                VulkanDistributedDispatchRunnerError(
                    join5(
                        "distributed dispatch ",
                        decimal(dispatch_index).as_str(),
                        " owned by ",
                        quoted(owner_device_id).as_str(),
                        " exhausts its timeline semaphore values during replay",
                    ),
                ),
            ),
            Some(_) => Ok(()),
        }
    }

    /// Goes on by a number of values.
    pub fn advance(&mut self, count: u64)
        requires
            old(self).deep_view() + count <= u64::MAX,
        ensures
            final(self).deep_view() == old(self).deep_view() + count,
    {
        self.next_value = self.next_value + count;
    }
}

/// A clock gives out its values in strictly increasing order, and going on by a
/// number of values never makes it give one out again.
pub proof fn law_reserved_values_increase(
    clock: u64,
    count: u64,
    owner_device_id: Seq<char>,
    dispatch_index: usize,
)
    requires
        reserved(clock, owner_device_id, dispatch_index) is Ok,
        advance_fault(
            reserved(clock, owner_device_id, dispatch_index)->Ok_0.1,
            count,
            owner_device_id,
            dispatch_index,
        ) is None,
        reserved(
            (reserved(clock, owner_device_id, dispatch_index)->Ok_0.1 + count) as u64,
            owner_device_id,
            dispatch_index,
        ) is Ok,
    ensures
        reserved(clock, owner_device_id, dispatch_index)->Ok_0.0 < reserved(
            (reserved(clock, owner_device_id, dispatch_index)->Ok_0.1 + count) as u64,
            owner_device_id,
            dispatch_index,
        )->Ok_0.0,
{
}

} // verus!
