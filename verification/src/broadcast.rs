//! Fan-out of state-change notifications to any number of subscribers.
//!
//! Each subscription owns a bounded buffer of fixed capacity. `send` pushes
//! a notification to every active subscription independently; when a buffer
//! is full, its oldest entry is dropped for that subscriber only and the
//! loss is counted. The subscriber's next `recv` then reports the count as
//! an explicit lag signal — a prompt to resynchronize — before deliveries
//! resume from the oldest retained notification.
//!
//! The broadcaster carries the full send history as a ghost sequence; every
//! contract is stated against it, so order preservation and exact loss
//! accounting are proved, not sampled.

use std::collections::VecDeque;

use vstd::prelude::*;

use crate::models::{AudioDevice, AudioDeviceV, Link, Port, PortV};

verus! {

/// One notification of a state transition, produced exactly once per cache
/// mutation, in mutation order. Volume levels count thousandths of full
/// volume.
#[derive(Debug, PartialEq)]
pub enum ServerEvent {
    DeviceAdded(AudioDevice),
    DeviceRemoved(u32),
    VolumeChanged { id: u32, volume: u32, timestamp: Option<u64> },
    PortAdded(Port),
    PortRemoved(u32),
    LinkAdded(Link),
    LinkRemoved(u32),
    Log(String),
}

/// The mathematical value of a [`ServerEvent`].
#[verifier::ext_equal]
pub ghost enum ServerEventV {
    DeviceAdded(AudioDeviceV),
    DeviceRemoved(u32),
    VolumeChanged { id: u32, volume: u32, timestamp: Option<u64> },
    PortAdded(PortV),
    PortRemoved(u32),
    LinkAdded(Link),
    LinkRemoved(u32),
    Log(Seq<char>),
}

impl View for ServerEvent {
    type V = ServerEventV;

    open spec fn view(&self) -> ServerEventV {
        match self {
            ServerEvent::DeviceAdded(d) => ServerEventV::DeviceAdded(d@),
            ServerEvent::DeviceRemoved(id) => ServerEventV::DeviceRemoved(*id),
            ServerEvent::VolumeChanged { id, volume, timestamp } => ServerEventV::VolumeChanged {
                id: *id,
                volume: *volume,
                timestamp: *timestamp,
            },
            ServerEvent::PortAdded(p) => ServerEventV::PortAdded(p@),
            ServerEvent::PortRemoved(id) => ServerEventV::PortRemoved(*id),
            ServerEvent::LinkAdded(l) => ServerEventV::LinkAdded(*l),
            ServerEvent::LinkRemoved(id) => ServerEventV::LinkRemoved(*id),
            ServerEvent::Log(s) => ServerEventV::Log(s@),
        }
    }
}

impl DeepView for ServerEvent {
    type V = ServerEventV;

    open spec fn deep_view(&self) -> ServerEventV {
        self.view()
    }
}

impl ServerEvent {
    /// An explicit copy whose view equals the original's.
    pub fn dup(&self) -> (r: ServerEvent)
        ensures
            r@ == self@,
    {
        match self {
            ServerEvent::DeviceAdded(d) => ServerEvent::DeviceAdded(d.dup()),
            ServerEvent::DeviceRemoved(id) => ServerEvent::DeviceRemoved(*id),
            ServerEvent::VolumeChanged { id, volume, timestamp } => ServerEvent::VolumeChanged {
                id: *id,
                volume: *volume,
                timestamp: *timestamp,
            },
            ServerEvent::PortAdded(p) => ServerEvent::PortAdded(p.dup()),
            ServerEvent::PortRemoved(id) => ServerEvent::PortRemoved(*id),
            ServerEvent::LinkAdded(l) => ServerEvent::LinkAdded(*l),
            ServerEvent::LinkRemoved(id) => ServerEvent::LinkRemoved(*id),
            ServerEvent::Log(s) => ServerEvent::Log(s.clone()),
        }
    }
}

/// What one call to [`EventBroadcaster::recv`] yields.
#[derive(Debug, PartialEq)]
pub enum Received {
    /// The next notification, in send order.
    Event(ServerEvent),
    /// This subscriber missed this many notifications since it last kept
    /// up; it should resynchronize. Deliveries resume with the next call.
    Lagged(u64),
    /// Nothing is pending right now.
    Empty,
}

/// The mathematical value of a [`Received`].
#[verifier::ext_equal]
pub ghost enum ReceivedV {
    Event(ServerEventV),
    Lagged(nat),
    Empty,
}

impl View for Received {
    type V = ReceivedV;

    open spec fn view(&self) -> ReceivedV {
        match self {
            Received::Event(e) => ReceivedV::Event(e@),
            Received::Lagged(n) => ReceivedV::Lagged(*n as nat),
            Received::Empty => ReceivedV::Empty,
        }
    }
}

/// The mathematical state of one subscription: `cursor` is the position in
/// the send history of the next notification it will be handed, and `lag`
/// counts the notifications dropped since the last lag report.
#[verifier::ext_equal]
pub ghost struct QueueV {
    pub cursor: int,
    pub lag: nat,
}

/// The mathematical state of the broadcaster: the capacity of each
/// subscription buffer, every notification ever sent in order, and one
/// optional queue state per subscription slot (`None` once unsubscribed).
#[verifier::ext_equal]
pub ghost struct BroadcasterV {
    pub capacity: nat,
    pub history: Seq<ServerEventV>,
    pub queues: Seq<Option<QueueV>>,
}

/// The notifications subscription `key` has not yet been handed: a
/// contiguous suffix of the history, in send order.
pub open spec fn pending(b: BroadcasterV, key: int) -> Seq<ServerEventV> {
    b.history.subrange(b.queues[key].unwrap().cursor, b.history.len() as int)
}

/// How a queue reacts to one send: if its buffer is full, the oldest entry
/// is dropped (the cursor advances past it) and the loss is counted. The
/// loss counter saturates at `u64::MAX`.
pub open spec fn spec_queue_after_send(q: QueueV, history_len: int, capacity: nat) -> QueueV {
    if history_len - q.cursor < capacity {
        q
    } else {
        QueueV { cursor: q.cursor + 1, lag: if q.lag < u64::MAX { q.lag + 1 } else { q.lag } }
    }
}

/// One send: the notification enters the history and every active queue
/// reacts as [`spec_queue_after_send`] says.
pub open spec fn spec_send(b: BroadcasterV, e: ServerEventV) -> BroadcasterV {
    BroadcasterV {
        capacity: b.capacity,
        history: b.history.push(e),
        queues: Seq::new(
            b.queues.len(),
            |i: int| match b.queues[i] {
                Some(q) => Some(spec_queue_after_send(q, b.history.len() as int, b.capacity)),
                None => None,
            },
        ),
    }
}

/// One receive on subscription `key`: a pending loss is reported first and
/// reset; otherwise the notification at the cursor is delivered and the
/// cursor advances; otherwise nothing is pending.
pub open spec fn spec_recv(b: BroadcasterV, key: int) -> (BroadcasterV, ReceivedV) {
    let q = b.queues[key].unwrap();
    if q.lag > 0 {
        (
            BroadcasterV {
                capacity: b.capacity,
                history: b.history,
                queues: b.queues.update(key, Some(QueueV { cursor: q.cursor, lag: 0 })),
            },
            ReceivedV::Lagged(q.lag),
        )
    } else if q.cursor < b.history.len() {
        (
            BroadcasterV {
                capacity: b.capacity,
                history: b.history,
                queues: b.queues.update(key, Some(QueueV { cursor: q.cursor + 1, lag: 0 })),
            },
            ReceivedV::Event(b.history[q.cursor]),
        )
    } else {
        (b, ReceivedV::Empty)
    }
}

struct SubQueue {
    active: bool,
    buf: VecDeque<ServerEvent>,
    lag: u64,
    cursor: Ghost<int>,
}

/// A multi-consumer fan-out of notifications with a bounded buffer per
/// subscription and drop-oldest, report-lag semantics for slow consumers.
pub struct EventBroadcaster {
    capacity: usize,
    queues: Vec<SubQueue>,
    history: Ghost<Seq<ServerEventV>>,
}

impl View for EventBroadcaster {
    type V = BroadcasterV;

    closed spec fn view(&self) -> BroadcasterV {
        BroadcasterV {
            capacity: self.capacity as nat,
            history: self.history@,
            queues: Seq::new(
                self.queues@.len(),
                |i: int| if self.queues@[i].active {
                    Some(QueueV { cursor: self.queues@[i].cursor@, lag: self.queues@[i].lag as nat })
                } else {
                    None
                },
            ),
        }
    }
}

impl EventBroadcaster {
    spec fn queue_ok(q: SubQueue, history: Seq<ServerEventV>, capacity: nat) -> bool {
        q.active ==> {
            &&& 0 <= q.cursor@
            &&& q.cursor@ + q.buf@.len() == history.len()
            &&& q.buf@.len() <= capacity
            &&& q.buf.deep_view() == history.subrange(q.cursor@, history.len() as int)
        }
    }

    /// The broadcaster's internal consistency: every active buffer holds
    /// exactly the pending suffix of the history, within capacity.
    pub closed spec fn wf(&self) -> bool {
        &&& self.capacity > 0
        &&& forall|i: int|
            0 <= i < self.queues@.len() ==> Self::queue_ok(
                #[trigger] self.queues@[i],
                self.history@,
                self.capacity as nat,
            )
    }

    /// A broadcaster whose subscriptions each buffer up to `capacity`
    /// notifications.
    pub fn with_capacity(capacity: usize) -> (r: EventBroadcaster)
        requires
            capacity > 0,
        ensures
            r.wf(),
            r@.capacity == capacity,
            r@.history == Seq::<ServerEventV>::empty(),
            r@.queues == Seq::<Option<QueueV>>::empty(),
    {
        let r = EventBroadcaster {
            capacity,
            queues: Vec::new(),
            history: Ghost(Seq::empty()),
        };
        proof {
            assert(r@.queues =~= Seq::<Option<QueueV>>::empty());
        }
        r
    }

    /// A broadcaster with the default per-subscription buffer of 1000.
    pub fn new() -> (r: EventBroadcaster)
        ensures
            r.wf(),
            r@.capacity == 1000,
            r@.history == Seq::<ServerEventV>::empty(),
            r@.queues == Seq::<Option<QueueV>>::empty(),
    {
        Self::with_capacity(1000)
    }

    /// Opens a fresh subscription and returns its key. The subscription
    /// starts at the current end of the history: it sees exactly the
    /// notifications sent after this call.
    pub fn subscribe(&mut self) -> (key: usize)
        requires
            old(self).wf(),
        ensures
            final(self).wf(),
            key == old(self)@.queues.len(),
            final(self)@.capacity == old(self)@.capacity,
            final(self)@.history == old(self)@.history,
            final(self)@.queues == old(self)@.queues.push(
                Some(QueueV { cursor: old(self)@.history.len() as int, lag: 0 }),
            ),
    {
        let key = self.queues.len();
        self.queues.push(
            SubQueue {
                active: true,
                buf: VecDeque::new(),
                lag: 0,
                cursor: Ghost(self.history@.len() as int),
            },
        );
        proof {
            let h = self.history@;
            assert(self.queues@[key as int].buf.deep_view() =~= h.subrange(
                h.len() as int,
                h.len() as int,
            ));
            assert(Self::queue_ok(self.queues@[key as int], h, self.capacity as nat));
            assert(self@.queues =~= old(self)@.queues.push(
                Some(QueueV { cursor: old(self)@.history.len() as int, lag: 0 }),
            ));
        }
        key
    }

    /// Closes a subscription; its slot stays `None` from then on. Unknown
    /// keys are ignored.
    pub fn unsubscribe(&mut self, key: usize)
        requires
            old(self).wf(),
        ensures
            final(self).wf(),
            final(self)@.capacity == old(self)@.capacity,
            final(self)@.history == old(self)@.history,
            final(self)@.queues == if key < old(self)@.queues.len() {
                old(self)@.queues.update(key as int, None::<QueueV>)
            } else {
                old(self)@.queues
            },
    {
        if key < self.queues.len() {
            let q = &mut self.queues[key];
            q.active = false;
            q.buf = VecDeque::new();
            q.lag = 0;
            proof {
                assert(self@.queues =~= old(self)@.queues.update(key as int, None::<QueueV>));
            }
        } else {
            proof {
                assert(self@.queues =~= old(self)@.queues);
            }
        }
    }

    /// How many subscription slots exist, open or closed.
    pub fn slot_count(&self) -> (r: usize)
        ensures
            r == self@.queues.len(),
    {
        self.queues.len()
    }

    /// Whether `key` names an open subscription.
    pub fn is_subscribed(&self, key: usize) -> (r: bool)
        ensures
            r == (key < self@.queues.len() && self@.queues[key as int] is Some),
    {
        key < self.queues.len() && self.queues[key].active
    }

    /// Pushes `event` to every active subscription: into its buffer if
    /// there is room, else in place of that subscriber's oldest pending
    /// notification, counting the loss. With no subscribers this only
    /// extends the history; it never fails.
    pub fn send(&mut self, event: ServerEvent)
        requires
            old(self).wf(),
        ensures
            final(self).wf(),
            final(self)@ == spec_send(old(self)@, event@),
    {
        let ghost b0 = self@;
        let ghost h1 = self.history@.push(event@);
        proof {
            self.history = Ghost(h1);
        }
        let n = self.queues.len();
        let cap = self.capacity;
        for i in 0..n
            invariant
                n == self.queues@.len(),
                cap == self.capacity,
                cap > 0,
                b0.capacity == cap as nat,
                b0.queues.len() == n,
                self.history@ == h1,
                h1 == b0.history.push(event@),
                forall|j: int|
                    i as int <= j < n ==> Self::queue_ok(
                        #[trigger] self.queues@[j],
                        b0.history,
                        cap as nat,
                    ),
                forall|j: int|
                    i as int <= j < n ==> #[trigger] view_slot(self.queues@[j]) == b0.queues[j],
                forall|j: int|
                    0 <= j < i as int ==> Self::queue_ok(
                        #[trigger] self.queues@[j],
                        h1,
                        cap as nat,
                    ),
                forall|j: int|
                    0 <= j < i as int ==> #[trigger] view_slot(self.queues@[j]) == match b0.queues[
                        j
                    ] {
                        Some(q) => Some(
                            spec_queue_after_send(q, b0.history.len() as int, cap as nat),
                        ),
                        None => None,
                    },
        {
            let copy = event.dup();
            proof {
                assert(Self::queue_ok(self.queues@[i as int], b0.history, cap as nat));
                assert(view_slot(self.queues@[i as int]) == b0.queues[i as int]);
            }
            let ghost slot0 = self.queues@[i as int];
            let ghost dv0 = slot0.buf.deep_view();
            let ghost c0 = slot0.cursor@;
            let q = &mut self.queues[i];
            if q.active {
                let ghost qv0 = QueueV { cursor: q.cursor@, lag: q.lag as nat };
                let ghost before = q.buf@;
                if q.buf.len() >= cap {
                    let dropped = q.buf.pop_front();
                    if q.lag < u64::MAX {
                        q.lag = q.lag + 1;
                    }
                    q.cursor = Ghost(q.cursor@ + 1);
                    q.buf.push_back(copy);
                    proof {
                        assert(q.buf@ == before.subrange(1, before.len() as int).push(copy));
                        assert forall|j: int|
                            0 <= j < q.buf@.len() implies q.buf@[j].deep_view()
                            == dv0.drop_first().push(event@)[j] by {
                            if j < q.buf@.len() - 1 {
                                assert(q.buf@[j] == before[j + 1]);
                                assert(dv0[j + 1] == before[j + 1].deep_view());
                            } else {
                                assert(q.buf@[j] == copy);
                            }
                        }
                        assert(q.buf.deep_view() =~= dv0.drop_first().push(event@));
                        assert(dv0.drop_first().push(event@) =~= h1.subrange(
                            c0 + 1,
                            h1.len() as int,
                        ));
                        assert(q.buf.deep_view() == h1.subrange(q.cursor@, h1.len() as int));
                        assert(view_slot(*q) == Some(
                            spec_queue_after_send(qv0, b0.history.len() as int, cap as nat),
                        ));
                        assert(Self::queue_ok(*q, h1, cap as nat));
                    }
                } else {
                    q.buf.push_back(copy);
                    proof {
                        assert(q.buf@ == before.push(copy));
                        assert forall|j: int|
                            0 <= j < q.buf@.len() implies q.buf@[j].deep_view() == dv0.push(
                            event@,
                        )[j] by {
                            if j < q.buf@.len() - 1 {
                                assert(q.buf@[j] == before[j]);
                                assert(dv0[j] == before[j].deep_view());
                            } else {
                                assert(q.buf@[j] == copy);
                            }
                        }
                        assert(q.buf.deep_view() =~= dv0.push(event@));
                        assert(dv0.push(event@) =~= h1.subrange(c0, h1.len() as int));
                        assert(q.buf.deep_view() == h1.subrange(q.cursor@, h1.len() as int));
                        assert(view_slot(*q) == Some(
                            spec_queue_after_send(qv0, b0.history.len() as int, cap as nat),
                        ));
                        assert(Self::queue_ok(*q, h1, cap as nat));
                    }
                }
            } else {
                proof {
                    assert(view_slot(*q) == b0.queues[i as int]);
                    assert(Self::queue_ok(*q, h1, cap as nat));
                }
            }
        }
        proof {
            assert forall|j: int| 0 <= j < n as int implies self@.queues[j] == spec_send(
                b0,
                event@,
            ).queues[j] by {
                assert(view_slot(self.queues@[j]) == match b0.queues[j] {
                    Some(q) => Some(spec_queue_after_send(q, b0.history.len() as int, cap as nat)),
                    None => None,
                });
            }
            assert(self@.queues =~= spec_send(b0, event@).queues);
            assert(self@ =~= spec_send(b0, event@));
        }
    }

    /// Hands subscription `key` its next item: a pending loss report, else
    /// the oldest undelivered notification, else nothing.
    pub fn recv(&mut self, key: usize) -> (r: Received)
        requires
            old(self).wf(),
            key < old(self)@.queues.len(),
            old(self)@.queues[key as int] is Some,
        ensures
            final(self).wf(),
            ({
                let (b2, rv) = spec_recv(old(self)@, key as int);
                final(self)@ == b2 && r@ == rv
            }),
    {
        let ghost b0 = self@;
        proof {
            assert(Self::queue_ok(self.queues@[key as int], self.history@, self.capacity as nat));
            assert(view_slot(self.queues@[key as int]) == b0.queues[key as int]);
        }
        let ghost slot0 = self.queues@[key as int];
        let ghost dv0 = slot0.buf.deep_view();
        let ghost c0 = slot0.cursor@;
        let ghost h = self.history@;
        let q = &mut self.queues[key];
        assert(q.active);
        if q.lag > 0 {
            let n = q.lag;
            q.lag = 0;
            proof {
                assert(view_slot(*q) == Some(
                    QueueV { cursor: b0.queues[key as int].unwrap().cursor, lag: 0 },
                ));
                assert(Self::queue_ok(*q, h, b0.capacity));
            }
            let r = Received::Lagged(n);
            proof {
                assert(self@.queues =~= spec_recv(b0, key as int).0.queues);
                assert(self@ =~= spec_recv(b0, key as int).0);
            }
            r
        } else {
            let ghost before = q.buf@;
            match q.buf.pop_front() {
                Some(ev) => {
                    q.cursor = Ghost(q.cursor@ + 1);
                    proof {
                        assert(q.buf@ == before.subrange(1, before.len() as int));
                        assert(ev == before[0]);
                        assert(dv0[0] == before[0].deep_view());
                        assert(ev@ == b0.history[b0.queues[key as int].unwrap().cursor]);
                        assert forall|j: int|
                            0 <= j < q.buf@.len() implies q.buf@[j].deep_view()
                            == dv0.drop_first()[j] by {
                            assert(q.buf@[j] == before[j + 1]);
                            assert(dv0[j + 1] == before[j + 1].deep_view());
                        }
                        assert(q.buf.deep_view() =~= dv0.drop_first());
                        assert(dv0.drop_first() =~= h.subrange(c0 + 1, h.len() as int));
                        assert(q.buf.deep_view() == h.subrange(q.cursor@, h.len() as int));
                        assert(Self::queue_ok(*q, h, b0.capacity));
                        assert(view_slot(*q) == Some(
                            QueueV { cursor: b0.queues[key as int].unwrap().cursor + 1, lag: 0 },
                        ));
                    }
                    let r = Received::Event(ev);
                    proof {
                        assert(self@.queues =~= spec_recv(b0, key as int).0.queues);
                        assert(self@ =~= spec_recv(b0, key as int).0);
                    }
                    r
                },
                None => {
                    proof {
                        assert(view_slot(*q) == b0.queues[key as int]);
                        assert(Self::queue_ok(*q, h, b0.capacity));
                        assert(b0.queues[key as int].unwrap().cursor == b0.history.len());
                    }
                    let r = Received::Empty;
                    proof {
                        assert(self@.queues =~= b0.queues);
                        assert(self@ =~= spec_recv(b0, key as int).0);
                    }
                    r
                },
            }
        }
    }
}

// The view of one subscription slot.
spec fn view_slot(q: SubQueue) -> Option<QueueV> {
    if q.active {
        Some(QueueV { cursor: q.cursor@, lag: q.lag as nat })
    } else {
        None
    }
}

/// Ordering of deliveries: when a subscription is live and not lagging, a
/// receive hands out exactly the oldest pending notification — the history
/// entry at its cursor — and the rest of the pending suffix is unchanged.
/// Deliveries therefore come in send order, gap-free between lag reports.
pub proof fn lemma_recv_in_order(b: BroadcasterV, key: int)
    requires
        0 <= key < b.queues.len(),
        b.queues[key] is Some,
        b.queues[key].unwrap().lag == 0,
        0 <= b.queues[key].unwrap().cursor <= b.history.len(),
    ensures
        ({
            let (b2, rv) = spec_recv(b, key);
            &&& b2.history == b.history
            &&& pending(b, key).len() > 0 ==> rv == ReceivedV::Event(pending(b, key)[0])
                && pending(b2, key) == pending(b, key).drop_first()
            &&& pending(b, key).len() == 0 ==> rv == ReceivedV::Empty && b2 == b
        }),
{
    let q = b.queues[key].unwrap();
    let (b2, rv) = spec_recv(b, key);
    if q.cursor < b.history.len() {
        assert(pending(b, key)[0] == b.history[q.cursor]);
        assert(pending(b2, key) =~= pending(b, key).drop_first());
    } else {
        assert(pending(b, key).len() == 0);
    }
}

/// Ordering under load: a send appends the new notification to every live
/// subscription's pending suffix; if the buffer was full, only the single
/// oldest pending notification is dropped. Pending notifications are never
/// reordered, so every subscriber observes a subsequence of the send
/// history in its original relative order.
pub proof fn lemma_send_in_order(b: BroadcasterV, key: int, e: ServerEventV)
    requires
        b.capacity > 0,
        0 <= key < b.queues.len(),
        b.queues[key] is Some,
        0 <= b.queues[key].unwrap().cursor <= b.history.len(),
    ensures
        ({
            let b2 = spec_send(b, e);
            &&& b2.history == b.history.push(e)
            &&& pending(b, key).len() < b.capacity ==> pending(b2, key) == pending(b, key).push(e)
            &&& pending(b, key).len() >= b.capacity ==> pending(b2, key) == pending(
                b,
                key,
            ).drop_first().push(e)
        }),
{
    let q = b.queues[key].unwrap();
    let b2 = spec_send(b, e);
    if b.history.len() - q.cursor < b.capacity {
        assert(pending(b2, key) =~= pending(b, key).push(e));
    } else {
        assert(pending(b2, key) =~= pending(b, key).drop_first().push(e));
    }
}

} // verus!
