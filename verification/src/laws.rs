//! Laws of the subscription state machine, proved over arbitrary runs of
//! the spec-level step function that every executable transition of
//! `Subscription` is pinned to.

use vstd::prelude::*;
use crate::ring::{
    ring_payload, spec_produce, spec_run, spec_step, SubscriptionEvent, SubscriptionView,
};

verus! {

/// Every single step keeps a subscription well formed: the queue never
/// exceeds its bound, nothing is dropped while the consumer is attached,
/// a closed subscription holds no queue, and everything ever produced is
/// the fixed payload.
pub proof fn lemma_step_preserves_wf(m: SubscriptionView, e: SubscriptionEvent)
    requires
        m.wf(),
    ensures
        spec_step(m, e).wf(),
{
    let m2 = spec_step(m, e);
    match e {
        SubscriptionEvent::Produce => {
            if m.phase is Open && m.pending.len() < m.capacity {
                assert forall|i: int| 0 <= i < m2.produced().len()
                    implies #[trigger] m2.produced()[i] == ring_payload() by {
                    if i < m.produced().len() {
                        assert(m.produced()[i] == ring_payload());
                    }
                }
            }
        },
        SubscriptionEvent::Deliver => {
            if m.pending.len() > 0 {
                assert(m2.produced() =~= m.produced());
            }
        },
        SubscriptionEvent::Disconnect => {
            assert(m2.produced() =~= m.produced());
        },
    }
}

/// Well-formedness is an invariant of every run. In particular the queue
/// stays within its fixed bound forever: memory never grows unboundedly,
/// however long the subscription lives and whatever the consumer does.
pub proof fn lemma_run_preserves_wf(m: SubscriptionView, es: Seq<SubscriptionEvent>)
    requires
        m.wf(),
    ensures
        spec_run(m, es).wf(),
        spec_run(m, es).pending.len() <= m.capacity,
        spec_run(m, es).capacity == m.capacity,
    decreases es.len(),
{
    if es.len() > 0 {
        lemma_step_preserves_wf(m, es.first());
        lemma_run_preserves_wf(spec_step(m, es.first()), es.drop_first());
    }
}

/// Backpressure: a producer attempt against a full queue changes nothing
/// at all — the notification is neither queued nor dropped, the producer
/// simply has to wait for the consumer and try again.
pub proof fn lemma_backpressure(m: SubscriptionView)
    requires
        m.wf(),
        m.phase is Open,
        m.pending.len() == m.capacity,
    ensures
        spec_produce(m) == m,
{
}

/// Once the subscription is closed, it is closed for good: no event of any
/// kind ever changes it again. In particular nothing is produced, nothing
/// is delivered, and no resource grows after disconnection is observed.
pub proof fn lemma_closed_is_final(m: SubscriptionView, es: Seq<SubscriptionEvent>)
    requires
        m.wf(),
        m.phase is Closed,
    ensures
        spec_run(m, es) == m,
    decreases es.len(),
{
    if es.len() > 0 {
        let e = es.first();
        assert(spec_step(m, e) =~= m) by {
            match e {
                SubscriptionEvent::Produce => {},
                SubscriptionEvent::Deliver => {},
                SubscriptionEvent::Disconnect => {
                    assert(m.dropped + m.pending =~= m.dropped);
                },
            }
        }
        lemma_closed_is_final(m, es.drop_first());
        assert(spec_run(m, es) == spec_run(spec_step(m, e), es.drop_first()));
    }
}

/// Deliveries are a prefix of production: the consumer sees exactly the
/// oldest part of the produced sequence, in production order, with no
/// reordering and no duplication.
pub proof fn lemma_delivered_is_prefix(m: SubscriptionView)
    ensures
        m.delivered =~= m.produced().take(m.delivered.len() as int),
        m.delivered.is_prefix_of(m.produced()),
{
}

/// A step never rewrites history: what was delivered stays delivered, in
/// place, and later deliveries only append.
pub proof fn lemma_step_extends_delivered(m: SubscriptionView, e: SubscriptionEvent)
    ensures
        m.delivered.is_prefix_of(spec_step(m, e).delivered),
{
    let m2 = spec_step(m, e);
    assert(m.delivered =~= m2.delivered.take(m.delivered.len() as int));
}

/// Over a whole run, the delivered sequence only ever grows by appending:
/// the stream a consumer has seen is never reordered or rewritten.
pub proof fn lemma_run_extends_delivered(m: SubscriptionView, es: Seq<SubscriptionEvent>)
    ensures
        m.delivered.is_prefix_of(spec_run(m, es).delivered),
    decreases es.len(),
{
    if es.len() == 0 {
        assert(m.delivered =~= m.delivered.take(m.delivered.len() as int));
    } else {
        let m2 = spec_step(m, es.first());
        lemma_step_extends_delivered(m, es.first());
        lemma_run_extends_delivered(m2, es.drop_first());
        let mf = spec_run(m, es);
        assert(m.delivered =~= mf.delivered.take(m.delivered.len() as int));
    }
}

/// Running a singleton event followed by the rest is one step and then the
/// remaining run.
pub proof fn lemma_run_cons(
    m: SubscriptionView,
    e: SubscriptionEvent,
    es: Seq<SubscriptionEvent>,
)
    ensures
        spec_run(m, seq![e] + es) == spec_run(spec_step(m, e), es),
{
    let whole = seq![e] + es;
    assert(whole.first() == e);
    assert(whole.drop_first() =~= es);
}

/// The event schedule of a consumer that keeps pace for `k` cadence
/// intervals: each produced notification is taken before the next tick.
pub open spec fn paced_events(k: nat) -> Seq<SubscriptionEvent>
    decreases k,
{
    if k == 0 {
        Seq::empty()
    } else {
        seq![SubscriptionEvent::Produce, SubscriptionEvent::Deliver]
            + paced_events((k - 1) as nat)
    }
}

proof fn lemma_paced_run_from(m: SubscriptionView, k: nat)
    requires
        m.wf(),
        m.phase is Open,
        m.pending.len() == 0,
    ensures
        spec_run(m, paced_events(k)).phase is Open,
        spec_run(m, paced_events(k)).pending.len() == 0,
        spec_run(m, paced_events(k)).delivered
            =~= m.delivered + Seq::new(k, |i: int| ring_payload()),
        spec_run(m, paced_events(k)).capacity == m.capacity,
        spec_run(m, paced_events(k)).dropped == m.dropped,
    decreases k,
{
    if k == 0 {
        assert(m.delivered + Seq::new(0, |i: int| ring_payload()) =~= m.delivered);
    } else {
        let m1 = spec_step(m, SubscriptionEvent::Produce);
        let m2 = spec_step(m1, SubscriptionEvent::Deliver);
        assert(m1.pending == m.pending.push(ring_payload()));
        assert(m2.pending =~= Seq::<Seq<char>>::empty());
        assert(m2.delivered == m.delivered.push(ring_payload()));
        lemma_step_preserves_wf(m, SubscriptionEvent::Produce);
        lemma_step_preserves_wf(m1, SubscriptionEvent::Deliver);
        let rest = paced_events((k - 1) as nat);
        assert(paced_events(k)
            =~= seq![SubscriptionEvent::Produce]
                + (seq![SubscriptionEvent::Deliver] + rest));
        lemma_run_cons(m, SubscriptionEvent::Produce, seq![SubscriptionEvent::Deliver] + rest);
        lemma_run_cons(m1, SubscriptionEvent::Deliver, rest);
        lemma_paced_run_from(m2, (k - 1) as nat);
        assert(m.delivered.push(ring_payload()) + Seq::new((k - 1) as nat, |i: int| ring_payload())
            =~= m.delivered + Seq::new(k, |i: int| ring_payload()));
    }
}

/// Pacing law: a fresh subscription whose consumer keeps pace for `k`
/// cadence intervals delivers exactly `k` notifications — one per
/// interval, each carrying the fixed payload, strictly in order — and its
/// queue is empty again afterwards.
pub proof fn lemma_paced_subscription(capacity: nat, k: nat)
    requires
        capacity >= 1,
    ensures
        spec_run(SubscriptionView::fresh(capacity), paced_events(k)).delivered
            =~= Seq::new(k, |i: int| ring_payload()),
        spec_run(SubscriptionView::fresh(capacity), paced_events(k)).pending.len() == 0,
        spec_run(SubscriptionView::fresh(capacity), paced_events(k)).phase is Open,
{
    let m = SubscriptionView::fresh(capacity);
    lemma_paced_run_from(m, k);
    assert(m.delivered + Seq::new(k, |i: int| ring_payload())
        =~= Seq::new(k, |i: int| ring_payload()));
}

/// One event addressed to one of two subscriptions that are open at the
/// same time.
pub enum TaggedEvent {
    ToFirst(SubscriptionEvent),
    ToSecond(SubscriptionEvent),
}

/// Two subscriptions driven by one interleaved schedule, each step applied
/// to the subscription it is addressed to.
pub open spec fn spec_run_pair(
    m1: SubscriptionView,
    m2: SubscriptionView,
    es: Seq<TaggedEvent>,
) -> (SubscriptionView, SubscriptionView)
    decreases es.len(),
{
    if es.len() == 0 {
        (m1, m2)
    } else {
        match es.first() {
            TaggedEvent::ToFirst(e) => spec_run_pair(spec_step(m1, e), m2, es.drop_first()),
            TaggedEvent::ToSecond(e) => spec_run_pair(m1, spec_step(m2, e), es.drop_first()),
        }
    }
}

/// The events of an interleaved schedule addressed to the first subscription.
pub open spec fn events_to_first(es: Seq<TaggedEvent>) -> Seq<SubscriptionEvent>
    decreases es.len(),
{
    if es.len() == 0 {
        Seq::empty()
    } else {
        match es.first() {
            TaggedEvent::ToFirst(e) => seq![e] + events_to_first(es.drop_first()),
            TaggedEvent::ToSecond(_) => events_to_first(es.drop_first()),
        }
    }
}

/// The events of an interleaved schedule addressed to the second subscription.
pub open spec fn events_to_second(es: Seq<TaggedEvent>) -> Seq<SubscriptionEvent>
    decreases es.len(),
{
    if es.len() == 0 {
        Seq::empty()
    } else {
        match es.first() {
            TaggedEvent::ToFirst(_) => events_to_second(es.drop_first()),
            TaggedEvent::ToSecond(e) => seq![e] + events_to_second(es.drop_first()),
        }
    }
}

/// Independence law: two concurrently open subscriptions never affect one
/// another. However their events are interleaved, each subscription ends in
/// exactly the state of running its own events alone — each consumer gets
/// its full, independent notification sequence, with no cross-delivery and
/// no corruption between the two queues.
pub proof fn lemma_subscriptions_independent(
    m1: SubscriptionView,
    m2: SubscriptionView,
    es: Seq<TaggedEvent>,
)
    ensures
        spec_run_pair(m1, m2, es).0 == spec_run(m1, events_to_first(es)),
        spec_run_pair(m1, m2, es).1 == spec_run(m2, events_to_second(es)),
    decreases es.len(),
{
    if es.len() > 0 {
        match es.first() {
            TaggedEvent::ToFirst(e) => {
                lemma_subscriptions_independent(spec_step(m1, e), m2, es.drop_first());
                lemma_run_cons(m1, e, events_to_first(es.drop_first()));
            },
            TaggedEvent::ToSecond(e) => {
                lemma_subscriptions_independent(m1, spec_step(m2, e), es.drop_first());
                lemma_run_cons(m2, e, events_to_second(es.drop_first()));
            },
        }
    }
}

} // verus!
