//! Pacing decisions for one direction of a stream.
//!
//! A direction is either idle or delaying. It starts to delay when a
//! transfer leaves a wait that is worth a timer, and it is idle again once
//! that timer has run out or has been consumed by the next attempt.

use crate::limiter::{Bucket, RateLimiter};
use vstd::prelude::*;

verus! {

/// Shortest wait, in nanoseconds, for which a timer is armed. A shorter wait
/// is not worth the scheduling overhead and is skipped.
pub const MIN_DELAY_NANOS: u128 = 10_000_000;

/// How an attempt to move bytes through the inner stream ended.
#[derive(Clone, Copy, Debug, PartialEq, Eq)]
pub enum Transfer {
    /// The inner stream could not make progress yet.
    Pending,
    /// The inner stream reported an error.
    Failed,
    /// The inner stream moved this many bytes.
    Done(usize),
}

/// The delay to arm for a wait of `wait` nanoseconds, if any: the wait
/// itself from the threshold on, none below it.
pub open spec fn scheduled(wait: nat) -> Option<u128> {
    if MIN_DELAY_NANOS <= wait <= u128::MAX {
        Some(wait as u128)
    } else {
        None
    }
}

/// Whether an attempt may go on to the inner stream: there is no pending
/// delay, or its timer has run out.
pub open spec fn ready(delay: Option<u128>, timer_elapsed: bool) -> bool {
    delay is None || timer_elapsed
}

/// The number of bytes by which the filled part of a read buffer grew; zero
/// if it did not grow.
pub open spec fn grown(filled_before: nat, filled_after: nat) -> nat {
    if filled_after >= filled_before {
        (filled_after - filled_before) as nat
    } else {
        0
    }
}

/// One attempt to read or to write, as the pacing logic sees it.
pub struct PollEvent {
    /// Time of the attempt, in nanoseconds.
    pub now: nat,
    /// Whether the timer of the pending delay, if there is one, has run out.
    pub timer_elapsed: bool,
    /// What the inner stream answers if the attempt reaches it.
    pub outcome: Transfer,
}

/// The mathematical state of one direction of a stream.
pub struct Direction {
    /// The limiter of this direction; `None` means that it is not limited.
    pub limiter: Option<Bucket>,
    /// The pending delay in nanoseconds; `None` while idle.
    pub delay: Option<u128>,
}

impl Direction {
    /// An idle direction with a full bucket.
    pub open spec fn fresh(rate: nat, bucket_size: nat, start_time: nat) -> Direction {
        Direction { limiter: Some(Bucket::full(rate, bucket_size, start_time)), delay: None }
    }

    /// Whether the attempt `event` reaches the inner stream.
    pub open spec fn admits(self, event: PollEvent) -> bool {
        ready(self.delay, event.timer_elapsed)
    }

    /// The number of bytes that the attempt `event` moves.
    pub open spec fn moved(self, event: PollEvent) -> nat {
        match event.outcome {
            Transfer::Done(count) if self.admits(event) => count as nat,
            _ => 0,
        }
    }

    /// The state once an attempt has been admitted: the delay is consumed.
    pub open spec fn entered(self) -> Direction {
        Direction { limiter: self.limiter, delay: None }
    }

    /// The state once an attempt that reached the inner stream has ended in
    /// `outcome` at `now`. Bytes moved through a limited direction are
    /// accounted for, and the resulting wait is pending if it reaches the
    /// threshold. Any other outcome changes nothing.
    pub open spec fn settled(self, now: nat, outcome: Transfer) -> Direction {
        match (self.limiter, outcome) {
            (Some(bucket), Transfer::Done(count)) => {
                let after = bucket.register(now, count as nat);
                Direction { limiter: Some(after), delay: scheduled(after.wait()) }
            },
            _ => self,
        }
    }

    /// The state after the attempt `event`.
    ///
    /// An attempt that finds an unfinished delay changes nothing. Any other
    /// attempt consumes the delay, reaches the inner stream and is settled.
    pub open spec fn poll(self, event: PollEvent) -> Direction {
        if self.admits(event) {
            self.entered().settled(event.now, event.outcome)
        } else {
            self
        }
    }
}

/// Tells whether an attempt may go on: `true` when no delay is pending or
/// when `timer_elapsed` reports that the pending one has run out.
pub fn delay_is_ready(delay: &Option<u128>, timer_elapsed: bool) -> (is_ready: bool)
    ensures
        is_ready == ready(*delay, timer_elapsed),
{
    match delay {
        Some(_) => timer_elapsed,
        None => true,
    }
}

/// Opens an attempt: tells whether it may go on to the inner stream, and if
/// so consumes the pending delay. An attempt that may not go on leaves the
/// delay in place. Where no delay is pending the attempt goes on whatever the
/// timer reports.
pub fn enter(delay: &mut Option<u128>, timer_elapsed: bool) -> (admitted: bool)
    ensures
        admitted == ready(*old(delay), timer_elapsed),
        *final(delay) == if admitted {
            None
        } else {
            *old(delay)
        },
        *old(delay) is None ==> admitted,
{
    let is_ready = delay_is_ready(delay, timer_elapsed);
    if is_ready {
        *delay = None;
    }
    is_ready
}

/// Decides whether a wait is worth a timer: `Some(wait)` from the threshold
/// on, `None` below it.
pub fn schedule(wait: u128) -> (delay: Option<u128>)
    ensures
        delay == scheduled(wait as nat),
{
    if wait >= MIN_DELAY_NANOS {
        Some(wait)
    } else {
        None
    }
}

/// Number of bytes that a read added to a buffer whose filled part had
/// `filled_before` bytes before the read and has `filled_after` bytes after.
/// A read that left the filled part shorter added nothing.
pub fn bytes_read(filled_before: usize, filled_after: usize) -> (count: usize)
    ensures
        count == grown(filled_before as nat, filled_after as nat),
{
    if filled_after >= filled_before {
        filled_after - filled_before
    } else {
        0
    }
}

/// Accounts for `count` transferred bytes at `now` and returns the delay to
/// arm before the next transfer, if the wait reaches the threshold.
pub fn pace(limiter: &mut RateLimiter, now: u64, count: usize) -> (delay: Option<u128>)
    ensures
        final(limiter)@ == old(limiter)@.register(now as nat, count as nat),
        final(limiter)@.wf(),
        delay == scheduled(final(limiter)@.wait()),
        delay matches Some(wait) ==> wait >= MIN_DELAY_NANOS,
        final(limiter)@.wait() < MIN_DELAY_NANOS ==> delay is None,
        old(limiter)@.rate == 0 ==> delay is None,
{
    let wait = limiter.register_traffic(now, count as u64);
    schedule(wait)
}

} // verus!
