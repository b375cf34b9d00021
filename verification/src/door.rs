//! The door controller: a process-wide activation counter behind the unary
//! unlock operation.
//!
//! The counter starts at zero, is incremented exactly once per accepted
//! unlock call, and is never decremented. Each accepted call returns the
//! decimal string of its own post-increment value, so any run of accepted
//! calls from a fresh instance returns the counts `1, 2, ...` with no
//! repeats and no gaps (`lemma_unlock_replies_complete`).

use vstd::prelude::*;
use crate::decimal::{decimal_of, lemma_decimal_of_injective, u64_to_decimal};

verus! {

/// Why a call was refused at establishment time. Mid-stream disconnection is
/// never an error: a subscription that loses its consumer simply stops.
#[derive(Clone, Copy, Debug, PartialEq, Eq)]
pub enum ServiceError {
    /// The service is shutting down and no longer accepts unary calls.
    Unavailable,
    /// A new subscription could not be established.
    ResourceExhausted,
}

/// The buzzer service state: the shared activation counter. One instance is
/// created at service start; every unlock call goes through it. Exclusive
/// access per call (`&mut self`) is the concurrency contract the surrounding
/// runtime must provide, e.g. by a mutex held for the read-modify-write only.
pub struct MyBuzzer {
    counter: i64,
}

impl MyBuzzer {
    /// The current activation count.
    pub closed spec fn count(self) -> int {
        self.counter as int
    }

    pub open spec fn wf(self) -> bool {
        0 <= self.count() <= i64::MAX
    }

    /// A fresh instance: no door activation has happened yet.
    pub fn new() -> (b: MyBuzzer)
        ensures
            b.wf(),
            b.count() == 0,
    {
        MyBuzzer { counter: 0 }
    }

    /// The activation count so far, for callers that must check the machine
    /// limit before asking for another unlock.
    pub fn current_count(&self) -> (c: i64)
        ensures
            c == self.count(),
    {
        self.counter
    }

    /// Unary unlock. While the service accepts calls, it increments the
    /// activation counter by exactly one and returns the decimal string of
    /// the post-increment value; a call made while the service is shutting
    /// down fails with `Unavailable` and leaves the counter untouched.
    pub fn open_door(&mut self, accepting: bool) -> (r: Result<String, ServiceError>)
        requires
            old(self).wf(),
            accepting ==> old(self).count() < i64::MAX,
        ensures
            final(self).wf(),
            accepting ==> final(self).count() == old(self).count() + 1,
            accepting ==> (r matches Ok(reply)
                && reply@ == decimal_of(final(self).count() as nat)),
            !accepting ==> r == Err::<String, ServiceError>(ServiceError::Unavailable)
                && final(self).count() == old(self).count(),
    {
        if !accepting {
            return Err(ServiceError::Unavailable);
        }
        self.counter = self.counter + 1;
        let reply = u64_to_decimal(self.counter as u64);
        Ok(reply)
    }
}

impl Default for MyBuzzer {
    /// Same as `MyBuzzer::new`: a fresh instance with a zero counter.
    fn default() -> (b: MyBuzzer)
        ensures
            b.wf(),
            b.count() == 0,
    {
        MyBuzzer { counter: 0 }
    }
}

/// The replies of `n` accepted unlock calls on a fresh instance: the `i`-th
/// call returns the decimal string of `i + 1`.
pub open spec fn unlock_replies(n: nat) -> Seq<Seq<char>> {
    Seq::new(n, |i: int| decimal_of((i + 1) as nat))
}

proof fn lemma_counter_trace_at(vals: Seq<int>, i: int)
    requires
        0 <= i < vals.len(),
        vals[0] == 0,
        forall|k: int| 0 <= k < vals.len() - 1 ==> #[trigger] vals[k + 1] == vals[k] + 1,
    ensures
        vals[i] == i,
    decreases i,
{
    if i > 0 {
        lemma_counter_trace_at(vals, i - 1);
        assert(vals[(i - 1) + 1] == vals[i - 1] + 1);
    }
}

/// Law: in any run in which each accepted unlock call increments the counter
/// by exactly one from zero — which is what `open_door` ensures of every
/// call — the counter after the `i`-th call is exactly `i`. No value is
/// observed twice and none is skipped.
pub proof fn lemma_unlock_counter_trace(vals: Seq<int>)
    requires
        vals.len() >= 1,
        vals[0] == 0,
        forall|k: int| 0 <= k < vals.len() - 1 ==> #[trigger] vals[k + 1] == vals[k] + 1,
    ensures
        forall|i: int| 0 <= i < vals.len() ==> vals[i] == i,
{
    assert forall|i: int| 0 <= i < vals.len() implies vals[i] == i by {
        lemma_counter_trace_at(vals, i);
    }
}

/// Law: the replies of `n` accepted unlock calls on a fresh instance are
/// exactly the decimal strings of `1 ..= n`, pairwise distinct: the
/// multiset of returned counts is exactly `{1, ..., n}`, with no repeats
/// and no gaps.
pub proof fn lemma_unlock_replies_complete(n: nat)
    ensures
        unlock_replies(n).len() == n,
        forall|i: int| 0 <= i < n ==> unlock_replies(n)[i] == decimal_of((i + 1) as nat),
        unlock_replies(n).no_duplicates(),
        forall|k: int| 1 <= k <= n
            ==> #[trigger] unlock_replies(n).to_multiset().count(decimal_of(k as nat)) == 1,
{
    broadcast use vstd::seq_lib::group_to_multiset_ensures;

    let replies = unlock_replies(n);
    assert forall|i: int, j: int| 0 <= i < replies.len() && 0 <= j < replies.len() && i != j
        implies replies[i] != replies[j] by {
        if replies[i] == replies[j] {
            lemma_decimal_of_injective((i + 1) as nat, (j + 1) as nat);
        }
    }
    replies.lemma_multiset_has_no_duplicates();
    assert forall|k: int| 1 <= k <= n
        implies #[trigger] replies.to_multiset().count(decimal_of(k as nat)) == 1 by {
        assert(replies[k - 1] == decimal_of(k as nat));
        assert(replies.contains(decimal_of(k as nat)));
    }
}

} // verus!
