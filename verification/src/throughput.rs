//! What holds of a paced direction over whole sequences of attempts: how
//! much it lets through, that the two directions of a stream do not affect
//! each other, and how it starts and resumes.

use crate::accounting::{lemma_fresh_burst_is_free, lemma_register_keeps_wf};
use crate::handle::{Half, Poisoned};
use crate::limiter::{lemma_nanos_to_repay, Bucket, MIN_TOKENS, TOKENS_PER_BYTE};
use crate::pacing::{Direction, PollEvent, Transfer, MIN_DELAY_NANOS};
use vstd::prelude::*;

verus! {

/// The time of the last of `events`, or `start` if there is none.
pub open spec fn end_time(start: nat, events: Seq<PollEvent>) -> nat {
    if events.len() == 0 {
        start
    } else {
        events.last().now
    }
}

impl Direction {
    /// The state after the attempts `events`, taken in order.
    pub open spec fn run(self, events: Seq<PollEvent>) -> Direction
        decreases events.len(),
    {
        if events.len() == 0 {
            self
        } else {
            self.run(events.drop_last()).poll(events.last())
        }
    }

    /// The number of bytes that the attempts `events` move in all.
    pub open spec fn total_moved(self, events: Seq<PollEvent>) -> nat
        decreases events.len(),
    {
        if events.len() == 0 {
            0
        } else {
            self.total_moved(events.drop_last()) + self.run(events.drop_last()).moved(
                events.last(),
            )
        }
    }

    /// Whether the attempt `event` comes with a timer that reports to have
    /// run out before the pending delay has passed since the transfer that
    /// caused it.
    pub open spec fn fires_early(self, event: PollEvent) -> bool {
        match (self.delay, self.limiter) {
            (Some(wait), Some(bucket)) => event.timer_elapsed && event.now < bucket.last_update
                + wait,
            _ => false,
        }
    }

    /// The attempts `events`, the first of them no earlier than `start`, are
    /// in the order of their times, and no timer fires early.
    pub open spec fn orderly(self, start: nat, events: Seq<PollEvent>) -> bool
        decreases events.len(),
    {
        events.len() == 0 || {
            let before = self.run(events.drop_last());
            let event = events.last();
            &&& self.orderly(start, events.drop_last())
            &&& event.now >= end_time(start, events.drop_last())
            &&& !before.fires_early(event)
        }
    }
}

/// The state of a limited direction after orderly attempts, and the bound
/// that it gives on the bytes moved so far.
spec fn paced(
    rate: nat,
    bucket_size: nat,
    start: nat,
    largest: nat,
    end: nat,
    total: nat,
    direction: Direction,
) -> bool {
    &&& 0 < rate <= u64::MAX
    &&& direction.limiter matches Some(bucket)
    &&& bucket.wf()
    &&& bucket.rate == rate
    &&& bucket.bucket_size == bucket_size
    &&& start <= bucket.last_update <= end
    &&& bucket.tokens + total * TOKENS_PER_BYTE <= bucket_size * TOKENS_PER_BYTE + rate * (
    bucket.last_update - start)
    &&& match direction.delay {
        Some(wait) => bucket.tokens + rate * wait >= 0,
        None => bucket.tokens + rate * (end - bucket.last_update) >= -(rate * (MIN_DELAY_NANOS
            - 1)),
    }
    &&& total * TOKENS_PER_BYTE <= bucket_size * TOKENS_PER_BYTE + largest * TOKENS_PER_BYTE + rate
        * (end - start) + rate * (MIN_DELAY_NANOS - 1)
}

/// Multiplication by a natural number keeps the order.
proof fn lemma_scale(rate: nat, a: int, b: int)
    requires
        a <= b,
    ensures
        rate * a <= rate * b,
{
    assert(rate * a <= rate * b) by (nonlinear_arith)
        requires
            a <= b,
            rate >= 0,
    ;
}

/// Multiplication distributes over a sum of two time spans.
proof fn lemma_split(rate: nat, a: int, b: int)
    ensures
        rate * (a + b) == rate * a + rate * b,
{
    assert(rate * (a + b) == rate * a + rate * b) by (nonlinear_arith);
}

/// One orderly attempt keeps a paced direction paced.
proof fn lemma_paced_step(
    rate: nat,
    bucket_size: nat,
    start: nat,
    largest: nat,
    end: nat,
    total: nat,
    direction: Direction,
    event: PollEvent,
)
    requires
        paced(rate, bucket_size, start, largest, end, total, direction),
        event.now >= end,
        !direction.fires_early(event),
        event.outcome matches Transfer::Done(count) ==> count <= largest,
    ensures
        paced(
            rate,
            bucket_size,
            start,
            largest,
            event.now,
            total + direction.moved(event),
            direction.poll(event),
        ),
{
    let bucket = direction.limiter.unwrap();
    let slack = rate * (MIN_DELAY_NANOS - 1);
    let now = event.now;
    let updated = bucket.last_update;
    let after = direction.poll(event);
    lemma_scale(rate, 0, MIN_DELAY_NANOS - 1);
    lemma_scale(rate, 0, now - end);
    lemma_scale(rate, end - start, now - start);
    lemma_scale(rate, end - updated, now - updated);
    assert(rate * 0 == 0) by (nonlinear_arith);
    assert(largest * TOKENS_PER_BYTE >= 0) by (nonlinear_arith);
    if !direction.admits(event) {
        assert(after == direction);
        assert(direction.moved(event) == 0);
    } else {
        // The balance that refill would reach by now, were there no cap.
        let gained = bucket.tokens + rate * (now - updated);
        assert(gained >= -slack) by {
            match direction.delay {
                Some(wait) => {
                    lemma_scale(rate, wait as int, now - updated);
                },
                None => {},
            }
        }
        match event.outcome {
            Transfer::Done(count) => {
                let cost = count * TOKENS_PER_BYTE;
                let registered = bucket.register(now, count as nat);
                assert(direction.moved(event) == count);
                assert(after.limiter == Some(registered));
                lemma_register_keeps_wf(bucket, now, count as nat);
                assert(bucket_size * TOKENS_PER_BYTE >= 0) by (nonlinear_arith);
                let refilled = bucket.refilled(now);
                assert(refilled <= gained);
                assert(refilled >= -slack);
                assert(slack <= 0xffff_ffff_ffff_ffff * 10_000_000) by (nonlinear_arith)
                    requires
                        slack == rate * (MIN_DELAY_NANOS - 1),
                        0 <= rate <= 0xffff_ffff_ffff_ffff,
                ;
                assert(0 <= cost <= 0xffff_ffff_ffff_ffff * 1_000_000_000) by (nonlinear_arith)
                    requires
                        cost == count * TOKENS_PER_BYTE,
                        0 <= count <= 0xffff_ffff_ffff_ffff,
                ;
                assert(refilled - cost >= MIN_TOKENS);
                assert(registered.tokens == refilled - cost);
                assert(registered.last_update == now);
                lemma_split(rate, updated - start, now - updated);
                assert((total + count) * TOKENS_PER_BYTE == total * TOKENS_PER_BYTE + cost)
                    by (nonlinear_arith)
                    requires
                        cost == count * TOKENS_PER_BYTE,
                ;
                assert(cost <= largest * TOKENS_PER_BYTE) by (nonlinear_arith)
                    requires
                        cost == count * TOKENS_PER_BYTE,
                        count <= largest,
                ;
                assert(rate * (now - now) == 0) by (nonlinear_arith);
                if registered.tokens < 0 {
                    lemma_nanos_to_repay(-registered.tokens, rate as int);
                    let wait = registered.wait();
                    assert(rate * wait == wait * rate) by (nonlinear_arith);
                    if wait < MIN_DELAY_NANOS {
                        lemma_scale(rate, wait as int, MIN_DELAY_NANOS - 1);
                    }
                }
            },
            _ => {
                assert(direction.moved(event) == 0);
                assert(after == Direction { limiter: direction.limiter, delay: None });
            },
        }
    }
}

/// Orderly attempts on a fresh direction keep it paced.
proof fn lemma_paced_run(
    rate: nat,
    bucket_size: nat,
    start: nat,
    largest: nat,
    events: Seq<PollEvent>,
)
    requires
        0 < rate <= u64::MAX,
        Direction::fresh(rate, bucket_size, start).orderly(start, events),
        forall|i: int|
            0 <= i < events.len() ==> (#[trigger] events[i].outcome matches Transfer::Done(count)
                ==> count <= largest),
    ensures
        paced(
            rate,
            bucket_size,
            start,
            largest,
            end_time(start, events),
            Direction::fresh(rate, bucket_size, start).total_moved(events),
            Direction::fresh(rate, bucket_size, start).run(events),
        ),
    decreases events.len(),
{
    let fresh = Direction::fresh(rate, bucket_size, start);
    assert(bucket_size * TOKENS_PER_BYTE >= 0) by (nonlinear_arith);
    assert(largest * TOKENS_PER_BYTE >= 0) by (nonlinear_arith);
    lemma_scale(rate, 0, MIN_DELAY_NANOS - 1);
    assert(rate * 0 == 0) by (nonlinear_arith);
    if events.len() == 0 {
        assert(0 * TOKENS_PER_BYTE == 0) by (nonlinear_arith);
    } else {
        let earlier = events.drop_last();
        let event = events.last();
        assert forall|i: int| 0 <= i < earlier.len() implies (
        #[trigger] earlier[i].outcome matches Transfer::Done(count) ==> count <= largest) by {
            assert(earlier[i] == events[i]);
        }
        lemma_paced_run(rate, bucket_size, start, largest, earlier);
        assert(event == events[events.len() - 1]);
        lemma_paced_step(
            rate,
            bucket_size,
            start,
            largest,
            end_time(start, earlier),
            fresh.total_moved(earlier),
            fresh.run(earlier),
            event,
        );
    }
}

/// A limited direction that starts on a full bucket lets through, up to any
/// moment, no more than the bucket, what the rate refills in the time that
/// has passed, one transfer, and what the rate refills during a wait that is
/// too short to be armed.
///
/// This holds of attempts that come in the order of their times, with
/// timers that do not fire early.
pub proof fn lemma_throughput_bound(
    rate: nat,
    bucket_size: nat,
    start: nat,
    largest: nat,
    events: Seq<PollEvent>,
)
    requires
        0 < rate <= u64::MAX,
        Direction::fresh(rate, bucket_size, start).orderly(start, events),
        forall|i: int|
            0 <= i < events.len() ==> (#[trigger] events[i].outcome matches Transfer::Done(count)
                ==> count <= largest),
    ensures
        end_time(start, events) >= start,
        Direction::fresh(rate, bucket_size, start).total_moved(events) * TOKENS_PER_BYTE <= (
        bucket_size + largest) * TOKENS_PER_BYTE + rate * (end_time(start, events) - start
            + MIN_DELAY_NANOS),
{
    lemma_paced_run(rate, bucket_size, start, largest, events);
    let span = end_time(start, events) - start;
    lemma_split(rate, span, MIN_DELAY_NANOS - 1);
    lemma_scale(rate, span + MIN_DELAY_NANOS - 1, span + MIN_DELAY_NANOS);
    assert((bucket_size + largest) * TOKENS_PER_BYTE == bucket_size * TOKENS_PER_BYTE + largest
        * TOKENS_PER_BYTE) by (nonlinear_arith);
}

/// Opening and closing an attempt on a direction whose limiter is not shared
/// is one step of [`Direction::poll`]: if `entered` is what opening the
/// attempt leaves of `before`, and `after` is what closing it leaves of
/// `entered` where it was admitted, then `after` is the direction that
/// `before` is in after the attempt, and the delay that was armed is the one
/// that is pending.
pub proof fn lemma_attempt_is_poll(
    before: Half,
    entered: Half,
    after: Half,
    event: PollEvent,
    armed: Result<Option<u128>, Poisoned>,
)
    requires
        before.determined(),
        entered == (Half {
            budget: before.budget,
            delay: if before.direction().admits(event) {
                None
            } else {
                before.delay
            },
        }),
        if before.direction().admits(event) {
            entered.settles(after, event.now, event.outcome, armed)
        } else {
            after == entered
        },
    ensures
        after.determined(),
        after.budget is Unlimited <==> before.budget is Unlimited,
        after.direction() == before.direction().poll(event),
        before.direction().admits(event) ==> armed == Ok::<Option<u128>, Poisoned>(after.delay),
{
}

/// One of the two directions of a stream.
pub enum Side {
    /// From the inner stream to the caller.
    Read,
    /// From the caller to the inner stream.
    Write,
}

/// An attempt on one side of a stream.
pub struct SidedEvent {
    /// The side on which the attempt is made.
    pub side: Side,
    /// The attempt.
    pub event: PollEvent,
}

/// The mathematical state of a stream whose directions have limiters of
/// their own.
pub struct Duplex {
    /// The read direction.
    pub read: Direction,
    /// The write direction.
    pub write: Direction,
}

/// Those of `events` that are made on `side`, in their order.
pub open spec fn on_side(side: Side, events: Seq<SidedEvent>) -> Seq<PollEvent>
    decreases events.len(),
{
    if events.len() == 0 {
        Seq::empty()
    } else if events.last().side == side {
        on_side(side, events.drop_last()).push(events.last().event)
    } else {
        on_side(side, events.drop_last())
    }
}

impl Duplex {
    /// The state after an attempt on one side: that side takes the step, the
    /// other stays as it is.
    pub open spec fn poll(self, attempt: SidedEvent) -> Duplex {
        match attempt.side {
            Side::Read => Duplex { read: self.read.poll(attempt.event), write: self.write },
            Side::Write => Duplex { read: self.read, write: self.write.poll(attempt.event) },
        }
    }

    /// The state after the attempts `events`, taken in order.
    pub open spec fn run(self, events: Seq<SidedEvent>) -> Duplex
        decreases events.len(),
    {
        if events.len() == 0 {
            self
        } else {
            self.run(events.drop_last()).poll(events.last())
        }
    }
}

/// The two directions of a stream do not affect each other: however reads
/// and writes are interleaved, and however hard one side is driven, each
/// direction ends in the state that its own attempts alone lead to, and so
/// with the delays and the balance that they alone lead to.
pub proof fn lemma_directions_independent(duplex: Duplex, events: Seq<SidedEvent>)
    ensures
        duplex.run(events).read == duplex.read.run(on_side(Side::Read, events)),
        duplex.run(events).write == duplex.write.run(on_side(Side::Write, events)),
    decreases events.len(),
{
    if events.len() > 0 {
        let earlier = events.drop_last();
        let attempt = events.last();
        lemma_directions_independent(duplex, earlier);
        let reads = on_side(Side::Read, earlier);
        let writes = on_side(Side::Write, earlier);
        match attempt.side {
            Side::Read => {
                assert(reads.push(attempt.event).drop_last() == reads);
                assert(reads.push(attempt.event).last() == attempt.event);
            },
            Side::Write => {
                assert(writes.push(attempt.event).drop_last() == writes);
                assert(writes.push(attempt.event).last() == attempt.event);
            },
        }
    }
}

/// A wait below the threshold arms no delay, and the attempt after it is
/// admitted whatever its timer reports: an attempt that is admitted and does
/// not leave a wait of at least `MIN_DELAY_NANOS` leaves the direction idle.
pub proof fn lemma_short_wait_never_suspends(
    direction: Direction,
    event: PollEvent,
    next: PollEvent,
)
    requires
        direction.admits(event),
        direction.limiter matches Some(bucket) ==> (event.outcome matches Transfer::Done(count)
            ==> bucket.register(event.now, count as nat).wait() < MIN_DELAY_NANOS),
    ensures
        direction.poll(event).delay is None,
        direction.poll(event).admits(next),
{
}

/// A delay is armed exactly for a wait that reaches the threshold: an
/// admitted attempt that moves bytes through a limited direction leaves the
/// wait of its accounting step pending if that wait is at least
/// `MIN_DELAY_NANOS`, and then the next attempt is suspended until its timer
/// has run out.
pub proof fn lemma_long_wait_suspends(
    direction: Direction,
    bucket: Bucket,
    count: usize,
    event: PollEvent,
    next: PollEvent,
)
    requires
        bucket.wf(),
        direction.admits(event),
        direction.limiter == Some(bucket),
        event.outcome == Transfer::Done(count),
        bucket.register(event.now, count as nat).wait() >= MIN_DELAY_NANOS,
    ensures
        direction.poll(event).delay == Some(
            bucket.register(event.now, count as nat).wait() as u128,
        ),
        direction.poll(event).admits(next) == next.timer_elapsed,
        !next.timer_elapsed ==> direction.poll(event).poll(next) == direction.poll(event),
{
    lemma_register_keeps_wf(bucket, event.now, count as nat);
}

/// A direction that is set up anew starts unaffected by any state that was
/// discarded before, be it in the middle of a delay or in debt: whatever
/// `discarded` held, the new direction is idle on a full bucket, admits its
/// first attempt whatever the timer reports, and arms no delay for a first
/// transfer of no more than `bucket_size` bytes.
pub proof fn lemma_fresh_start_is_clean(
    discarded: Direction,
    rate: nat,
    bucket_size: nat,
    start: nat,
    first: PollEvent,
)
    requires
        first.outcome matches Transfer::Done(count) ==> count <= bucket_size,
    ensures
        Direction::fresh(rate, bucket_size, start).delay is None,
        Direction::fresh(rate, bucket_size, start).limiter == Some(
            Bucket::full(rate, bucket_size, start),
        ),
        Direction::fresh(rate, bucket_size, start).admits(first),
        Direction::fresh(rate, bucket_size, start).poll(first).delay is None,
{
    match first.outcome {
        Transfer::Done(count) => {
            lemma_fresh_burst_is_free(rate, bucket_size, start, first.now, count as nat);
        },
        _ => {},
    }
}

} // verus!
