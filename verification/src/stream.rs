//! A stream with paced reads and writes.
//!
//! [`RateLimitedStream`] owns an inner stream and keeps, for each direction,
//! an optional limiter and the pending delay. It decides; moving the bytes
//! and running the timers is left to the caller, who reports back what
//! happened:
//!
//! 1. poll the timer of the pending delay, if there is one, and open the
//!    attempt with `begin_read` or `begin_write`;
//! 2. if the attempt is not admitted, suspend; otherwise drop the timer and
//!    forward the operation to the inner stream;
//! 3. close the attempt with `finish_read` or `finish_write`, and arm a
//!    timer for the delay that comes back, if any.
//!
//! Flushing and shutting down carry no data and go straight to the inner
//! stream.

use crate::handle::{budget, settle, Budget, Half, Limiter, Poisoned, SharedRateLimiter};
use crate::limiter::{Bucket, RateLimiter};
use crate::pacing::{enter, ready, Transfer};
use vstd::prelude::*;

verus! {

/// What a [`RateLimitedStream`] holds.
pub struct StreamState<S> {
    /// The inner stream.
    pub stream: S,
    /// The read direction.
    pub read: Half,
    /// The write direction.
    pub write: Half,
}

/// What stands for an optional shared limiter.
pub open spec fn shared_budget(limiter: Option<SharedRateLimiter>) -> Budget {
    match limiter {
        Some(shared) => Budget::Shared(shared),
        None => Budget::Unlimited,
    }
}

/// A rate limited stream using [`RateLimiter`].
pub struct RateLimitedStream<S> {
    read_limiter: Option<Limiter>,
    read_delay: Option<u128>,
    write_limiter: Option<Limiter>,
    write_delay: Option<u128>,
    stream: S,
}

impl<S> View for RateLimitedStream<S> {
    type V = StreamState<S>;

    closed spec fn view(&self) -> StreamState<S> {
        StreamState {
            stream: self.stream,
            read: Half { budget: budget(self.read_limiter), delay: self.read_delay },
            write: Half { budget: budget(self.write_limiter), delay: self.write_delay },
        }
    }
}

impl<S> RateLimitedStream<S> {
    /// Creates a new instance with reads and writes limited to the same
    /// `rate`. Each direction gets a limiter of its own, used by this stream
    /// only, with a full bucket at `now`.
    pub fn new(stream: S, rate: u64, bucket_size: u64, now: u64) -> (limited: Self)
        ensures
            limited@ == (StreamState {
                stream,
                read: Half {
                    budget: Budget::Private(
                        Bucket::full(rate as nat, bucket_size as nat, now as nat),
                    ),
                    delay: None,
                },
                write: Half {
                    budget: Budget::Private(
                        Bucket::full(rate as nat, bucket_size as nat, now as nat),
                    ),
                    delay: None,
                },
            }),
    {
        let read_limiter = Limiter::Private(RateLimiter::with_start_time(rate, bucket_size, now));
        let write_limiter = Limiter::Private(RateLimiter::with_start_time(rate, bucket_size, now));
        Self {
            read_limiter: Some(read_limiter),
            read_delay: None,
            write_limiter: Some(write_limiter),
            write_delay: None,
            stream,
        }
    }

    /// Creates a new instance with the given limiters for reads and writes.
    /// A direction without a limiter is not limited; clones of a limiter may
    /// be given to other streams, or to both directions, which then draw on
    /// one budget.
    pub fn with_limiter(
        stream: S,
        read_limiter: Option<SharedRateLimiter>,
        write_limiter: Option<SharedRateLimiter>,
    ) -> (limited: Self)
        ensures
            limited@ == (StreamState {
                stream,
                read: Half { budget: shared_budget(read_limiter), delay: None },
                write: Half { budget: shared_budget(write_limiter), delay: None },
            }),
    {
        let read_limiter = match read_limiter {
            Some(shared) => Some(Limiter::Shared(shared)),
            None => None,
        };
        let write_limiter = match write_limiter {
            Some(shared) => Some(Limiter::Shared(shared)),
            None => None,
        };
        Self { read_limiter, read_delay: None, write_limiter, write_delay: None, stream }
    }

    /// The pending delay of the read direction, in nanoseconds.
    pub fn read_delay(&self) -> (delay: Option<u128>)
        ensures
            delay == self@.read.delay,
    {
        self.read_delay
    }

    /// The pending delay of the write direction, in nanoseconds.
    pub fn write_delay(&self) -> (delay: Option<u128>)
        ensures
            delay == self@.write.delay,
    {
        self.write_delay
    }

    /// The inner stream.
    pub fn get_ref(&self) -> (inner: &S)
        ensures
            *inner == self@.stream,
    {
        &self.stream
    }

    /// The inner stream, for an operation to be forwarded to it.
    pub fn get_mut(&mut self) -> (inner: &mut S)
        ensures
            *inner == old(self)@.stream,
            final(self)@ == (StreamState { stream: *final(inner), ..old(self)@ }),
    {
        &mut self.stream
    }

    /// Gives the inner stream back. Pending delays are discarded.
    pub fn into_inner(self) -> (inner: S)
        ensures
            inner == self@.stream,
    {
        self.stream
    }

    /// Opens a read: tells whether it may go on to the inner stream, and if
    /// so consumes the pending read delay. The write direction is untouched.
    pub fn begin_read(&mut self, timer_elapsed: bool) -> (admitted: bool)
        ensures
            admitted == ready(old(self)@.read.delay, timer_elapsed),
            final(self)@ == (StreamState {
                read: Half {
                    budget: old(self)@.read.budget,
                    delay: if admitted {
                        None
                    } else {
                        old(self)@.read.delay
                    },
                },
                ..old(self)@
            }),
    {
        enter(&mut self.read_delay, timer_elapsed)
    }

    /// Opens a write, plain or vectored: tells whether it may go on to the
    /// inner stream, and if so consumes the pending write delay. The read
    /// direction is untouched.
    pub fn begin_write(&mut self, timer_elapsed: bool) -> (admitted: bool)
        ensures
            admitted == ready(old(self)@.write.delay, timer_elapsed),
            final(self)@ == (StreamState {
                write: Half {
                    budget: old(self)@.write.budget,
                    delay: if admitted {
                        None
                    } else {
                        old(self)@.write.delay
                    },
                },
                ..old(self)@
            }),
    {
        enter(&mut self.write_delay, timer_elapsed)
    }

    /// Closes a read that reached the inner stream and ended in `outcome` at
    /// `now`. Returns the delay to arm a timer for, which is then the pending
    /// read delay. The write direction is untouched.
    pub fn finish_read(&mut self, now: u64, outcome: Transfer) -> (armed: Result<
        Option<u128>,
        Poisoned,
    >)
        ensures
            old(self)@.read.settles(final(self)@.read, now as nat, outcome, armed),
            final(self)@ == (StreamState { read: final(self)@.read, ..old(self)@ }),
    {
        settle(&mut self.read_limiter, &mut self.read_delay, now, outcome)
    }

    /// Closes a write, plain or vectored, that reached the inner stream and
    /// ended in `outcome` at `now`. Returns the delay to arm a timer for,
    /// which is then the pending write delay. The read direction is
    /// untouched.
    pub fn finish_write(&mut self, now: u64, outcome: Transfer) -> (armed: Result<
        Option<u128>,
        Poisoned,
    >)
        ensures
            old(self)@.write.settles(final(self)@.write, now as nat, outcome, armed),
            final(self)@ == (StreamState { write: final(self)@.write, ..old(self)@ }),
    {
        settle(&mut self.write_limiter, &mut self.write_delay, now, outcome)
    }
}

} // verus!
