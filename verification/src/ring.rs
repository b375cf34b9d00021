//! The ring subscription manager: a per-subscription state machine that
//! produces a paced sequence of ring notifications through a bounded FIFO
//! delivery queue, blocks when the consumer falls behind, and stops cleanly
//! when the consumer disconnects.
//!
//! The surrounding runtime drives one `Subscription` per open streaming
//! call: a producer task calls `try_enqueue` once per cadence tick, the
//! transport side drains items with `take_delivery`, and the drop of the
//! consumer is reported with `disconnect`. Every transition is pinned to the
//! spec-level step function `spec_step`, and the laws in this module are
//! proved over arbitrary runs of those steps.

use vstd::prelude::*;
use crate::door::{MyBuzzer, ServiceError};

verus! {

/// How many notifications a delivery queue may hold before the producer
/// has to wait for the consumer.
pub const QUEUE_CAPACITY: usize = 128;

/// Milliseconds between two produced notifications.
pub const CADENCE_MS: u64 = 200;

/// The fixed payload every ring notification carries.
pub open spec fn ring_payload() -> Seq<char> {
    "hello"@
}

/// A single ring notification: a fixed human-readable payload with no
/// identity beyond its position in the stream.
pub struct RingNotification {
    pub message: String,
}

/// Builds the one notification value this service ever sends.
pub fn ring_notification() -> (n: RingNotification)
    ensures
        n.message@ == ring_payload(),
{
    RingNotification { message: "hello".to_owned() }
}

/// Whether the subscription still has a consumer.
#[derive(Clone, Copy, Debug, PartialEq, Eq, Structural)]
pub enum SubscriptionPhase {
    /// The consumer is attached: notifications are produced and delivered.
    Open,
    /// The consumer is gone: production has stopped for good.
    Closed,
}

/// The mathematical state of one subscription.
///
/// `pending` is the bounded delivery queue, oldest first; `delivered` is
/// everything the consumer has taken, in order; `dropped` is what was still
/// queued when the consumer disconnected. `produced()` is the whole history.
#[verifier::ext_equal]
pub ghost struct SubscriptionView {
    pub phase: SubscriptionPhase,
    pub capacity: nat,
    pub pending: Seq<Seq<char>>,
    pub delivered: Seq<Seq<char>>,
    pub dropped: Seq<Seq<char>>,
}

impl SubscriptionView {
    /// Every notification this subscription has ever produced, in
    /// production order. Nothing is ever lost: each produced item is with
    /// the consumer, still queued, or released on disconnect.
    pub open spec fn produced(self) -> Seq<Seq<char>> {
        self.delivered + self.pending + self.dropped
    }

    pub open spec fn wf(self) -> bool {
        &&& self.capacity >= 1
        &&& self.pending.len() <= self.capacity
        &&& (self.phase is Open ==> self.dropped.len() == 0)
        &&& (self.phase is Closed ==> self.pending.len() == 0)
        &&& forall|i: int| 0 <= i < self.produced().len()
            ==> #[trigger] self.produced()[i] == ring_payload()
    }

    /// Everything still queued carries the fixed payload: the queue holds a
    /// slice of the production history.
    pub proof fn lemma_pending_payload(self, i: int)
        requires
            self.wf(),
            0 <= i < self.pending.len(),
        ensures
            self.pending[i] == ring_payload(),
    {
        assert(self.produced()[self.delivered.len() + i] == self.pending[i]);
    }

    /// A subscription as it is right after the streaming call is accepted.
    pub open spec fn fresh(capacity: nat) -> SubscriptionView {
        SubscriptionView {
            phase: SubscriptionPhase::Open,
            capacity: capacity,
            pending: Seq::empty(),
            delivered: Seq::empty(),
            dropped: Seq::empty(),
        }
    }
}

/// The three things that can happen to a subscription.
#[derive(Clone, Copy, Debug, PartialEq, Eq, Structural)]
pub enum SubscriptionEvent {
    /// A cadence tick: the producer tries to queue the next notification.
    Produce,
    /// The transport side takes the oldest queued notification, if any.
    Deliver,
    /// The consumer side of the queue is dropped.
    Disconnect,
}

/// One producer attempt. While the subscription is open and the queue has
/// room, the fixed payload is appended; a full queue blocks the producer
/// (nothing is enqueued, nothing is dropped); a closed subscription is
/// never touched again.
pub open spec fn spec_produce(m: SubscriptionView) -> SubscriptionView {
    if m.phase is Open && m.pending.len() < m.capacity {
        SubscriptionView { pending: m.pending.push(ring_payload()), ..m }
    } else {
        m
    }
}

/// One consumer take: the oldest queued notification moves, in FIFO order,
/// from the queue to the delivered history.
pub open spec fn spec_deliver(m: SubscriptionView) -> SubscriptionView {
    if m.pending.len() > 0 {
        SubscriptionView {
            pending: m.pending.drop_first(),
            delivered: m.delivered.push(m.pending.first()),
            ..m
        }
    } else {
        m
    }
}

/// Consumer disconnection: the subscription closes and the queue is
/// released; what was still queued is dropped, never delivered.
pub open spec fn spec_disconnect(m: SubscriptionView) -> SubscriptionView {
    SubscriptionView {
        phase: SubscriptionPhase::Closed,
        pending: Seq::empty(),
        dropped: m.dropped + m.pending,
        ..m
    }
}

pub open spec fn spec_step(m: SubscriptionView, e: SubscriptionEvent) -> SubscriptionView {
    match e {
        SubscriptionEvent::Produce => spec_produce(m),
        SubscriptionEvent::Deliver => spec_deliver(m),
        SubscriptionEvent::Disconnect => spec_disconnect(m),
    }
}

/// The state after a whole sequence of events, applied oldest first.
pub open spec fn spec_run(m: SubscriptionView, es: Seq<SubscriptionEvent>) -> SubscriptionView
    decreases es.len(),
{
    if es.len() == 0 {
        m
    } else {
        spec_run(spec_step(m, es.first()), es.drop_first())
    }
}

/// What a producer attempt came to.
#[derive(Clone, Copy, Debug, PartialEq, Eq, Structural)]
pub enum EnqueueOutcome {
    /// The notification was queued for delivery.
    Accepted,
    /// The queue is full: backpressure. The producer must wait for the
    /// consumer and try again; nothing was enqueued and nothing was lost.
    Blocked,
    /// The consumer is gone. The producer must stop for good.
    Stopped,
}

/// One open streaming call: the bounded delivery queue plus the liveness
/// flag the producer polls on every enqueue attempt. The delivered and
/// dropped histories are ghost: they exist only to state the contracts.
pub struct Subscription {
    phase: SubscriptionPhase,
    capacity: usize,
    pending: Vec<RingNotification>,
    delivered: Ghost<Seq<Seq<char>>>,
    dropped: Ghost<Seq<Seq<char>>>,
}

impl View for Subscription {
    type V = SubscriptionView;

    closed spec fn view(&self) -> SubscriptionView {
        SubscriptionView {
            phase: self.phase,
            capacity: self.capacity as nat,
            pending: self.pending@.map_values(|n: RingNotification| n.message@),
            delivered: self.delivered@,
            dropped: self.dropped@,
        }
    }
}

impl Subscription {
    /// A fresh subscription over an empty queue of the given capacity.
    pub fn new(capacity: usize) -> (s: Subscription)
        requires
            capacity >= 1,
        ensures
            s@ == SubscriptionView::fresh(capacity as nat),
            s@.wf(),
    {
        let s = Subscription {
            phase: SubscriptionPhase::Open,
            capacity,
            pending: Vec::new(),
            delivered: Ghost(Seq::empty()),
            dropped: Ghost(Seq::empty()),
        };
        proof {
            assert(s@ =~= SubscriptionView::fresh(capacity as nat));
        }
        s
    }

    /// One producer attempt, made once per cadence tick. Exactly one of the
    /// three outcomes happens, and the state moves by `spec_produce`:
    /// accepted while open with room, blocked (unchanged) while open and
    /// full, stopped (unchanged) once closed.
    pub fn try_enqueue(&mut self) -> (r: EnqueueOutcome)
        requires
            old(self)@.wf(),
        ensures
            final(self)@.wf(),
            final(self)@ == spec_produce(old(self)@),
            r is Accepted <==> (old(self)@.phase is Open
                && old(self)@.pending.len() < old(self)@.capacity),
            r is Blocked <==> (old(self)@.phase is Open
                && old(self)@.pending.len() == old(self)@.capacity),
            r is Stopped <==> old(self)@.phase is Closed,
            r is Accepted ==> final(self)@.pending
                == old(self)@.pending.push(ring_payload()),
            !(r is Accepted) ==> final(self)@ == old(self)@,
    {
        match self.phase {
            SubscriptionPhase::Closed => EnqueueOutcome::Stopped,
            SubscriptionPhase::Open => {
                if self.pending.len() == self.capacity {
                    EnqueueOutcome::Blocked
                } else {
                    self.pending.push(ring_notification());
                    proof {
                        assert(self@.pending =~= old(self)@.pending.push(ring_payload()));
                        assert(self@ =~= spec_produce(old(self)@));
                        assert forall|i: int| 0 <= i < self@.produced().len()
                            implies #[trigger] self@.produced()[i] == ring_payload() by {
                            if i < old(self)@.produced().len() {
                                assert(old(self)@.produced()[i] == ring_payload());
                            }
                        }
                    }
                    EnqueueOutcome::Accepted
                }
            }
        }
    }

    /// The transport side takes the oldest queued notification, if there is
    /// one: strict FIFO, no reordering, no duplication. Returns `None` on an
    /// empty queue, and always once the subscription is closed.
    pub fn take_delivery(&mut self) -> (r: Option<RingNotification>)
        requires
            old(self)@.wf(),
        ensures
            final(self)@.wf(),
            final(self)@ == spec_deliver(old(self)@),
            r is Some <==> old(self)@.pending.len() > 0,
            r matches Some(n) ==> n.message@ == old(self)@.pending.first()
                && n.message@ == ring_payload(),
    {
        if self.pending.len() == 0 {
            None
        } else {
            let n = self.pending.remove(0);
            proof {
                old(self)@.lemma_pending_payload(0);
                self.delivered@ = self.delivered@.push(n.message@);
                assert(self@.pending =~= old(self)@.pending.drop_first());
                assert(self@ =~= spec_deliver(old(self)@));
                assert(self@.produced() =~= old(self)@.produced());
            }
            Some(n)
        }
    }

    /// The consumer side of the queue was dropped: close the subscription
    /// and release the queue. What was still pending is dropped, never
    /// delivered; what was already delivered stays delivered.
    pub fn disconnect(&mut self)
        requires
            old(self)@.wf(),
        ensures
            final(self)@.wf(),
            final(self)@ == spec_disconnect(old(self)@),
            final(self)@.phase is Closed,
            final(self)@.delivered == old(self)@.delivered,
            final(self)@.produced() == old(self)@.produced(),
    {
        self.phase = SubscriptionPhase::Closed;
        proof {
            self.dropped@ = self.dropped@ + self@.pending;
        }
        self.pending.clear();
        proof {
            assert(self@.pending =~= Seq::<Seq<char>>::empty());
            assert(self@ =~= spec_disconnect(old(self)@));
            assert(self@.produced() =~= old(self)@.produced());
        }
    }

    /// Whether the consumer is still attached.
    pub fn is_open(&self) -> (r: bool)
        ensures
            r <==> self@.phase is Open,
    {
        match self.phase {
            SubscriptionPhase::Open => true,
            SubscriptionPhase::Closed => false,
        }
    }

    /// How many notifications are queued and not yet taken.
    pub fn pending_len(&self) -> (r: usize)
        ensures
            r == self@.pending.len(),
    {
        self.pending.len()
    }

    /// The bound of the delivery queue.
    pub fn capacity(&self) -> (r: usize)
        ensures
            r == self@.capacity,
    {
        self.capacity
    }
}

impl MyBuzzer {
    /// Opens one streaming subscription: a fresh state machine over an empty
    /// bounded queue of `QUEUE_CAPACITY`. The runtime must report whether it
    /// could stand up the producer task and channel; when it could not, the
    /// call fails with `ResourceExhausted` — the only way this call fails.
    /// The door counter is never touched by subscriptions.
    pub fn listen_door(&self, resources_available: bool) -> (r: Result<
        Subscription,
        ServiceError,
    >)
        ensures
            resources_available ==> (r matches Ok(s)
                && s@ == SubscriptionView::fresh(QUEUE_CAPACITY as nat) && s@.wf()),
            !resources_available ==> (r matches Err(e)
                && e == ServiceError::ResourceExhausted),
    {
        if !resources_available {
            return Err(ServiceError::ResourceExhausted);
        }
        Ok(Subscription::new(QUEUE_CAPACITY))
    }
}

} // verus!
