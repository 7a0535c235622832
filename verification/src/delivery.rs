//! Getting messages to a client that may be reconnecting: how often to try, when to
//! take it for gone, and what to send before letting go of a connection.

use crate::protocol::Message;
use vstd::prelude::*;

verus! {

broadcast use vstd::seq::group_seq_axioms;

/// Attempts that a message is worth before the client is declared unreachable.
pub const SEND_ATTEMPTS: u32 = 50;

/// Milliseconds that one attempt may take.
pub const SEND_TIMEOUT_MS: u64 = 500;

/// Milliseconds between two attempts.
pub const SEND_PAUSE_MS: u64 = 100;

/// Seconds for which the stream to a client must stay closed, without a break, before
/// the client is taken for gone.
pub const SSE_DEAD_GRACE: u32 = 6;

/// How long one event may wait for the consumer of one connection, in milliseconds,
/// before that connection is given up. Meanwhile the client does not read its stream.
pub const DISPATCH_STALL_MS: u64 = 5000;

// Attempts at one message.

/// What to do after an attempt.
#[derive(Debug, Clone, Copy, PartialEq, Eq, Structural)]
pub enum Attempt {
    /// The message was delivered.
    Delivered,
    /// Pause and try again.
    Retry,
    /// The client is unreachable.
    GiveUp,
}

/// Attempts at delivering one message.
#[derive(Debug)]
pub struct Delivery {
    attempts: u32,
    failed: u32,
}

impl Delivery {
    /// The number of attempts that the message is worth.
    pub closed spec fn attempts(&self) -> nat {
        self.attempts as nat
    }

    /// The number of attempts that have failed.
    pub closed spec fn failed(&self) -> nat {
        self.failed as nat
    }

    pub fn new(attempts: u32) -> (r: Self)
        ensures
            r.attempts() == attempts,
            r.failed() == 0,
    {
        Delivery { attempts, failed: 0 }
    }

    /// There is another attempt to make.
    pub fn may_try(&self) -> (r: bool)
        ensures
            r == (self.failed() < self.attempts()),
    {
        self.failed < self.attempts
    }

    /// Takes the outcome of an attempt.
    pub fn tried(&mut self, sent: bool) -> (r: Attempt)
        requires
            old(self).failed() < old(self).attempts(),
        ensures
            final(self).attempts() == old(self).attempts(),
            final(self).failed() == old(self).failed() + (if sent {
                0int
            } else {
                1
            }),
            r == attempt_after(old(self).attempts(), old(self).failed(), sent),
    {
        if sent {
            return Attempt::Delivered;
        }
        self.failed = self.failed + 1;
        if self.failed < self.attempts {
            Attempt::Retry
        } else {
            Attempt::GiveUp
        }
    }
}

/// What follows an attempt, after so many failed ones.
pub open spec fn attempt_after(attempts: nat, failed: nat, sent: bool) -> Attempt {
    if sent {
        Attempt::Delivered
    } else if failed + 1 < attempts {
        Attempt::Retry
    } else {
        Attempt::GiveUp
    }
}

/// How a delivery ends on the outcomes of its attempts: delivered or not, and how
/// many attempts and pauses it took. Outcomes beyond the last attempt do not matter.
pub open spec fn delivery(attempts: nat, failed: nat, outcomes: Seq<bool>) -> (bool, nat, nat)
    decreases outcomes.len(),
{
    if failed >= attempts || outcomes.len() == 0 {
        (false, 0, 0)
    } else {
        match attempt_after(attempts, failed, outcomes[0]) {
            Attempt::Delivered => (true, 1, 0),
            Attempt::GiveUp => (false, 1, 0),
            Attempt::Retry => {
                let (ok, tries, pauses) = delivery(attempts, failed + 1, outcomes.skip(1));
                (ok, tries + 1, pauses + 1)
            },
        }
    }
}

/// A message is delivered exactly when one of the attempts that it is worth succeeds;
/// it never takes more attempts than that, and there is a pause between two attempts
/// only: one less than there are attempts.
pub proof fn delivery_is_bounded(attempts: nat, failed: nat, outcomes: Seq<bool>)
    requires
        failed < attempts,
        outcomes.len() >= attempts - failed,
    ensures
        ({
            let (ok, tries, pauses) = delivery(attempts, failed, outcomes);
            &&& ok <==> exists|i: int| 0 <= i < attempts - failed && #[trigger] outcomes[i]
            &&& 1 <= tries <= attempts - failed
            &&& pauses + 1 == tries
            &&& !ok ==> tries == attempts - failed
        }),
    decreases outcomes.len(),
{
    if !outcomes[0] && failed + 1 < attempts {
        let rest = outcomes.skip(1);
        delivery_is_bounded(attempts, failed + 1, rest);
        let (ok, _, _) = delivery(attempts, failed + 1, rest);
        if ok {
            let i = choose|i: int| 0 <= i < attempts - failed - 1 && #[trigger] rest[i];
            assert(outcomes[i + 1] == rest[i]);
        } else {
            assert forall|i: int| 0 <= i < attempts - failed implies !(#[trigger] outcomes[i]) by {
                if i > 0 {
                    assert(rest[i - 1] == outcomes[i]);
                }
            }
        }
    } else if outcomes[0] {
        assert(0 <= 0 < attempts - failed && outcomes[0]);
    }
}

/// The longest that the attempts at one message can take, in milliseconds.
pub open spec fn delivery_budget_ms(attempts: int) -> int {
    attempts * SEND_TIMEOUT_MS + (attempts - 1) * SEND_PAUSE_MS
}

/// One consumer that stalls the client's dispatch cannot use up the attempts at
/// another connection's message: they last more than five times as long.
pub proof fn a_stall_does_not_exhaust_delivery()
    ensures
        delivery_budget_ms(SEND_ATTEMPTS as int) > 5 * DISPATCH_STALL_MS,
        delivery_budget_ms(SEND_ATTEMPTS as int) <= 30_000,
{
}

// Watching the stream.

/// Watches whether the stream to a client is closed, once a second.
#[derive(Debug)]
pub struct SseWatchdog {
    closed_secs: u32,
}

/// For how many of the latest ticks the stream was found closed, without a break.
/// Ticks on which it could not be looked at do not count and do not break it.
pub open spec fn closed_run(seen: Seq<Option<bool>>) -> nat
    decreases seen.len(),
{
    if seen.len() == 0 {
        0
    } else {
        match seen.last() {
            None => closed_run(seen.drop_last()),
            Some(true) => closed_run(seen.drop_last()) + 1,
            Some(false) => 0,
        }
    }
}

impl SseWatchdog {
    /// Seconds for which the stream has been closed.
    pub closed spec fn closed_secs(&self) -> nat {
        self.closed_secs as nat
    }

    pub fn new() -> (r: Self)
        ensures
            r.closed_secs() == closed_run(Seq::empty()),
    {
        SseWatchdog { closed_secs: 0 }
    }

    /// Takes what a tick has seen: whether the stream is closed, or nothing where the
    /// session was in use. Says whether the client is gone.
    pub fn tick(&mut self, seen: Option<bool>) -> (r: bool)
        requires
            old(self).closed_secs() < SSE_DEAD_GRACE,
        ensures
            forall|past: Seq<Option<bool>>|
                old(self).closed_secs() == #[trigger] closed_run(past) ==> final(self).closed_secs()
                    == closed_run(past.push(seen)),
            r == (seen == Some(true) && final(self).closed_secs() >= SSE_DEAD_GRACE),
            !r ==> final(self).closed_secs() < SSE_DEAD_GRACE,
    {
        proof {
            assert forall|past: Seq<Option<bool>>|
                old(self).closed_secs() == #[trigger] closed_run(past) implies closed_run(
                past.push(seen),
            ) == (match seen {
                None => old(self).closed_secs(),
                Some(true) => old(self).closed_secs() + 1,
                Some(false) => 0,
            }) by {
                assert(past.push(seen).drop_last() =~= past);
            }
        }
        match seen {
            None => false,
            Some(true) => {
                self.closed_secs = self.closed_secs + 1;
                self.closed_secs >= SSE_DEAD_GRACE
            },
            Some(false) => {
                self.closed_secs = 0;
                false
            },
        }
    }
}

/// Every one of the ticks found the stream closed or could not look.
pub open spec fn never_open(seen: Seq<Option<bool>>) -> bool {
    forall|i: int| 0 <= i < seen.len() ==> #[trigger] seen[i] != Some(false)
}

/// How many of the ticks found the stream closed.
pub open spec fn closed_count(seen: Seq<Option<bool>>) -> nat
    decreases seen.len(),
{
    if seen.len() == 0 {
        0
    } else {
        closed_count(seen.drop_last()) + (if seen.last() == Some(true) {
            1nat
        } else {
            0
        })
    }
}

/// A client is taken for gone only where the stream was found closed on at least six
/// ticks after it was last found open: one reconnect starts the count anew.
pub proof fn a_live_stream_resets_the_watchdog(past: Seq<Option<bool>>, since: Seq<Option<bool>>)
    ensures
        closed_run(past.push(Some(false)) + since) <= closed_count(since),
        never_open(since) ==> closed_run(past.push(Some(false)) + since) == closed_count(since),
    decreases since.len(),
{
    let all = past.push(Some(false)) + since;
    if since.len() == 0 {
        assert(all =~= past.push(Some(false)));
        assert(all.last() == Some(false));
    } else {
        a_live_stream_resets_the_watchdog(past, since.drop_last());
        assert(all.drop_last() =~= past.push(Some(false)) + since.drop_last());
        assert(all.last() == since.last());
        if never_open(since) {
            assert forall|i: int| 0 <= i < since.drop_last().len() implies #[trigger] since.drop_last()[i]
                != Some(false) by {
                assert(since[i] != Some(false));
            }
            assert(since[since.len() - 1] != Some(false));
        }
    }
}

/// A contended session only delays the watchdog: ticks that could not look leave the
/// count as it is.
pub proof fn skipped_ticks_do_not_count(past: Seq<Option<bool>>, skipped: nat)
    ensures
        closed_run(past + Seq::new(skipped, |i: int| None::<bool>)) == closed_run(past),
    decreases skipped,
{
    let none = Seq::new(skipped, |i: int| None::<bool>);
    if skipped == 0 {
        assert(past + none =~= past);
    } else {
        let fewer = Seq::new((skipped - 1) as nat, |i: int| None::<bool>);
        skipped_ticks_do_not_count(past, (skipped - 1) as nat);
        assert((past + none).drop_last() =~= past + fewer);
    }
}

// Last messages.

/// The last messages of a connection, one after the other, as long as they arrive.
#[derive(Debug)]
pub struct Farewell {
    messages: Vec<Message>,
    next: usize,
}

impl Farewell {
    /// The messages.
    pub closed spec fn messages(&self) -> Seq<Message> {
        self.messages@
    }

    /// How many of them have been delivered.
    pub closed spec fn delivered(&self) -> nat {
        self.next as nat
    }

    pub open spec fn wf(&self) -> bool {
        self.delivered() <= self.messages().len()
    }

    pub fn new(messages: Vec<Message>) -> (r: Self)
        ensures
            r.messages() == messages@,
            r.delivered() == 0,
            r.wf(),
    {
        Farewell { messages, next: 0 }
    }

    /// The message to send now; none where all have been delivered.
    pub fn current(&self) -> (r: Option<&Message>)
        requires
            self.wf(),
        ensures
            match r {
                Some(m) => self.delivered() < self.messages().len() && *m
                    == self.messages()[self.delivered() as int],
                None => self.delivered() == self.messages().len(),
            },
    {
        if self.next < self.messages.len() {
            Some(&self.messages[self.next])
        } else {
            None
        }
    }

    /// Takes whether the message arrived. Says whether to go on with the next one:
    /// after the first that did not arrive nothing more is sent.
    pub fn sent(&mut self, arrived: bool) -> (r: bool)
        requires
            old(self).delivered() < old(self).messages().len(),
        ensures
            final(self).messages() == old(self).messages(),
            final(self).delivered() == old(self).delivered() + (if arrived {
                1int
            } else {
                0
            }),
            final(self).wf(),
            r == (arrived && final(self).delivered() < final(self).messages().len()),
    {
        let count: usize = self.messages.len();
        if !arrived {
            return false;
        }
        self.next = self.next + 1;
        self.next < count
    }
}

/// Which of the messages are sent, given which of them would arrive.
pub open spec fn farewell_sent(arrives: Seq<bool>) -> nat
    decreases arrives.len(),
{
    if arrives.len() == 0 {
        0
    } else if !arrives[0] {
        1
    } else {
        1 + farewell_sent(arrives.skip(1))
    }
}

/// A message is sent exactly when every one before it arrived.
pub proof fn farewell_stops_at_the_first_loss(arrives: Seq<bool>, i: int)
    requires
        0 <= i < arrives.len(),
    ensures
        i < farewell_sent(arrives) <==> forall|j: int| 0 <= j < i ==> #[trigger] arrives[j],
    decreases arrives.len(),
{
    if i > 0 {
        if arrives[0] {
            let rest = arrives.skip(1);
            farewell_stops_at_the_first_loss(rest, i - 1);
            if forall|j: int| 0 <= j < i - 1 ==> #[trigger] rest[j] {
                assert forall|j: int| 0 <= j < i implies #[trigger] arrives[j] by {
                    if j > 0 {
                        assert(rest[j - 1] == arrives[j]);
                    }
                }
            } else {
                let j = choose|j: int| 0 <= j < i - 1 && !(#[trigger] rest[j]);
                assert(arrives[j + 1] == rest[j]);
            }
        } else {
            assert(!arrives[0]);
        }
    }
}

/// How long and how often: fifty attempts of half a second with a tenth of a second between
/// them, six seconds of a closed stream, five seconds for a consumer.
pub proof fn patience_is_limited()
    ensures
        SEND_ATTEMPTS == 50,
        SEND_TIMEOUT_MS == 500,
        SEND_PAUSE_MS == 100,
        SSE_DEAD_GRACE == 6,
        DISPATCH_STALL_MS == 5000,
{
}

/// From the start on, a stream that was never found open has been closed for as many ticks
/// as found it closed.
pub proof fn the_watchdog_counts_from_the_start(seen: Seq<Option<bool>>)
    requires
        forall|i: int| 0 <= i < seen.len() ==> #[trigger] seen[i] != Some(false),
    ensures
        closed_run(seen) == closed_count(seen),
        closed_run(seen.push(Some(true))) == closed_count(seen) + 1,
        closed_run(seen.push(None)) == closed_count(seen),
        closed_run(seen.push(Some(false))) == 0,
    decreases seen.len(),
{
    assert(seen.push(Some(true)).drop_last() =~= seen);
    assert(seen.push(None).drop_last() =~= seen);
    if seen.len() > 0 {
        let before = seen.drop_last();
        assert forall|i: int| 0 <= i < before.len() implies #[trigger] before[i] != Some(false) by {
            assert(seen[i] != Some(false));
        }
        the_watchdog_counts_from_the_start(before);
        assert(seen[seen.len() - 1] != Some(false));
    }
}

/// Each tick that found the stream closed counts once, wherever it stands.
pub proof fn closed_ticks_are_counted(a: Seq<Option<bool>>, b: Seq<Option<bool>>, one: Option<bool>)
    ensures
        closed_count(a + b) == closed_count(a) + closed_count(b),
        closed_count(seq![one]) == (if one == Some(true) {
            1nat
        } else {
            0
        }),
        closed_count(Seq::empty()) == 0,
    decreases b.len(),
{
    reveal_with_fuel(closed_count, 2);
    assert(seq![one].drop_last() =~= Seq::<Option<bool>>::empty());
    if b.len() == 0 {
        assert(a + b =~= a);
    } else {
        closed_ticks_are_counted(a, b.drop_last(), one);
        assert((a + b).drop_last() =~= a + b.drop_last());
        assert((a + b).last() == b.last());
    }
}

/// An attempt that got through ends the delivery at once; one that failed is followed by
/// another as long as the message is worth one.
pub proof fn attempts_are_used_up(attempts: nat, failed: nat)
    requires
        failed < attempts,
    ensures
        attempt_after(attempts, failed, true) == Attempt::Delivered,
        attempt_after(attempts, failed, false) == Attempt::GiveUp <==> failed + 1 == attempts,
        attempt_after(attempts, failed, false) == Attempt::Retry <==> failed + 1 < attempts,
{
}

} // verus!
