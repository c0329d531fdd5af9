//! The limiter of one direction: the stream's own, or one that it shares.
//!
//! A shared limiter lives behind a mutex that only this module can lock.
//! Every accounting step holds the lock from its first read to its last
//! write, so that two steps never interleave, and the lock is never held
//! beyond the step.

use crate::limiter::{Bucket, RateLimiter};
use crate::pacing::{pace, scheduled, Direction, Transfer, MIN_DELAY_NANOS};
use std::sync::Arc;
use std::sync::Mutex;
use std::sync::MutexGuard;
use vstd::prelude::*;

verus! {

/// `std::sync::Mutex`, carried as an opaque value.
#[verifier::external_type_specification]
#[verifier::external_body]
#[verifier::reject_recursive_types(T)]
pub struct ExMutex<T: ?Sized>(Mutex<T>);

/// `std::sync::MutexGuard`, carried as an opaque value.
#[verifier::external_type_specification]
#[verifier::external_body]
#[verifier::reject_recursive_types(T)]
pub struct ExMutexGuard<'a, T: ?Sized + 'a>(MutexGuard<'a, T>);

/// The shared limiter can no longer be used: a holder of its lock failed
/// while holding it, so the balance may be inconsistent.
#[derive(Clone, Copy, Debug, PartialEq, Eq)]
pub struct Poisoned;

/// The state of the limiter that a guard gives access to. While the guard
/// is held nobody else can reach the limiter, so the state is the guard's
/// alone.
pub uninterp spec fn guarded_bucket(guard: MutexGuard<'_, RateLimiter>) -> Bucket;

/// The state of the limiter that a mutex was made to hold. It says nothing
/// of what the mutex holds later.
pub uninterp spec fn first_bucket(mutex: Mutex<RateLimiter>) -> Bucket;

/// Calls `std::sync::Mutex::new`: the mutex that comes back was made to hold
/// `limiter`.
#[verifier::external_body]
fn new_mutex(limiter: RateLimiter) -> (mutex: Mutex<RateLimiter>)
    ensures
        first_bucket(mutex) == limiter@,
{
    Mutex::new(limiter)
}

/// Calls `std::sync::Mutex::lock`, which blocks until the lock is free, and
/// gives `None` where it reports the mutex as poisoned. Nothing is claimed
/// of the guard. The call would not come back on a thread that holds the
/// lock already. That cannot be: the mutex is a private field of
/// [`SharedRateLimiter`], it is locked in [`register_traffic`] alone, and the
/// guard is gone when that returns.
#[verifier::external_body]
fn lock<'a>(limiter: &'a Mutex<RateLimiter>) -> (guard: Option<MutexGuard<'a, RateLimiter>>) {
    match limiter.lock() {
        Ok(guard) => Some(guard),
        Err(_) => None,
    }
}

/// Dereferences a `std::sync::MutexGuard` mutably. The limiter that comes
/// back is the one that the guard gives access to, and what is done to it is
/// done to the limiter behind the guard. Which state that limiter is in is
/// not claimed: another holder may have left any.
#[verifier::external_body]
fn guarded<'a, 'b>(guard: &'a mut MutexGuard<'b, RateLimiter>) -> (limiter: &'a mut RateLimiter)
    ensures
        (*limiter)@ == guarded_bucket(*old(guard)),
        (*final(limiter))@ == guarded_bucket(*final(guard)),
{
    &mut **guard
}

/// A limiter that several streams can share, so that they draw on one
/// budget. Cloning gives another handle to the same limiter.
#[derive(Clone)]
pub struct SharedRateLimiter {
    limiter: Arc<Mutex<RateLimiter>>,
}

impl SharedRateLimiter {
    /// The state of the limiter that this shared limiter was made from.
    pub closed spec fn made_from(self) -> Bucket {
        first_bucket(*self.limiter)
    }

    /// Makes `limiter` a limiter that can be shared. It starts in the state
    /// that `limiter` is in.
    pub fn new(limiter: RateLimiter) -> (shared: Self)
        ensures
            shared.made_from() == limiter@,
    {
        SharedRateLimiter { limiter: Arc::new(new_mutex(limiter)) }
    }
}

/// Accounts for `count` transferred bytes at `now` on a shared limiter and
/// returns the delay to arm, if any.
///
/// The limiter is locked for the duration of the accounting step, and what
/// comes of each outcome of locking is `pace_locked`. Which delay comes
/// back depends on the state that the other users of the limiter left
/// behind. A poisoned limiter is reported and left untouched.
pub fn register_traffic(limiter: &SharedRateLimiter, now: u64, count: usize) -> (armed: Result<
    Option<u128>,
    Poisoned,
>)
    ensures
        armed matches Ok(Some(wait)) ==> wait >= MIN_DELAY_NANOS,
{
    let mut guard = lock(&*limiter.limiter);
    pace_locked(&mut guard, now, count)
}

/// Accounts for `count` transferred bytes at `now` on the limiter that the
/// outcome of locking gives access to.
///
/// Where the lock was not obtained, because the limiter is poisoned, that is
/// reported and nothing is accounted for. Where it was obtained, the step is
/// [`pace`] on the limiter behind the guard: that limiter takes the step,
/// and the delay that comes back is the one that its state gives.
fn pace_locked(
    guard: &mut Option<MutexGuard<'_, RateLimiter>>,
    now: u64,
    count: usize,
) -> (armed: Result<Option<u128>, Poisoned>)
    ensures
        armed is Err <==> *old(guard) is None,
        match *old(guard) {
            Some(found) => {
                &&& *final(guard) matches Some(kept)
                &&& guarded_bucket(kept) == guarded_bucket(found).register(
                    now as nat,
                    count as nat,
                )
                &&& armed == Ok::<Option<u128>, Poisoned>(scheduled(guarded_bucket(kept).wait()))
            },
            None => *final(guard) is None,
        },
{
    match guard {
        Some(held) => {
            let delay = pace(guarded(held), now, count);
            Ok(delay)
        },
        None => Err(Poisoned),
    }
}

/// The limiter of one direction of a stream.
pub enum Limiter {
    /// A limiter that this stream alone uses.
    Private(RateLimiter),
    /// A limiter that other streams may use as well.
    Shared(SharedRateLimiter),
}

/// What limits one direction of a stream.
pub enum Budget {
    /// Nothing.
    Unlimited,
    /// A limiter of the stream's own, in this state.
    Private(Bucket),
    /// This shared limiter, in whatever state its users have left it.
    Shared(SharedRateLimiter),
}

/// What an optional limiter stands for.
pub open spec fn budget(limiter: Option<Limiter>) -> Budget {
    match limiter {
        None => Budget::Unlimited,
        Some(Limiter::Private(own)) => Budget::Private(own@),
        Some(Limiter::Shared(shared)) => Budget::Shared(shared),
    }
}

/// One direction of a stream: what limits it, and its pending delay.
pub struct Half {
    /// What limits the direction.
    pub budget: Budget,
    /// The pending delay in nanoseconds; `None` while idle.
    pub delay: Option<u128>,
}

impl Half {
    /// Whether the state of the limiter is known from this stream alone.
    pub open spec fn determined(self) -> bool {
        !(self.budget is Shared)
    }

    /// The direction, where its limiter is not shared.
    pub open spec fn direction(self) -> Direction
        recommends
            self.determined(),
    {
        Direction {
            limiter: match self.budget {
                Budget::Private(bucket) => Some(bucket),
                _ => None,
            },
            delay: self.delay,
        }
    }

    /// The half with the budget of `self` that is in the state `direction`.
    pub open spec fn at(self, direction: Direction) -> Half {
        Half {
            budget: match (self.budget, direction.limiter) {
                (Budget::Private(_), Some(bucket)) => Budget::Private(bucket),
                _ => self.budget,
            },
            delay: direction.delay,
        }
    }

    /// Whether an attempt that ended in `outcome` is accounted for: it moved
    /// bytes, and the direction is limited.
    pub open spec fn accounts(self, outcome: Transfer) -> bool {
        !(self.budget is Unlimited) && outcome is Done
    }

    /// Whether `after` and `armed` are what settling an attempt that ended in
    /// `outcome` at `now` may leave of `self`.
    ///
    /// With a limiter of its own, or with none, the direction ends as
    /// [`Direction::settled`] says, and the delay that was armed, if any, is
    /// returned. With a shared limiter the delay depends on the other users;
    /// whatever is armed is returned, and a poisoned limiter leaves the
    /// pending delay as it was.
    pub open spec fn settles(
        self,
        after: Half,
        now: nat,
        outcome: Transfer,
        armed: Result<Option<u128>, Poisoned>,
    ) -> bool {
        &&& armed matches Ok(Some(wait)) ==> wait >= MIN_DELAY_NANOS
        &&& !self.accounts(outcome) ==> after == self && armed == Ok::<Option<u128>, Poisoned>(None)
        &&& self.accounts(outcome) ==> if self.determined() {
            &&& after == self.at(self.direction().settled(now, outcome))
            &&& armed == Ok::<Option<u128>, Poisoned>(after.delay)
        } else {
            &&& after.budget == self.budget
            &&& match armed {
                Ok(pending) => after.delay == pending,
                Err(_) => after.delay == self.delay,
            }
        }
    }
}

/// Closes an attempt that reached the inner stream and ended in `outcome`
/// at `now`.
///
/// Bytes moved through a limited direction are accounted for on its
/// limiter, and the delay that results, if any, becomes the pending delay
/// and is returned for a timer to be armed. Nothing else is accounted for
/// and nothing else touches the pending delay.
pub fn settle(
    limiter: &mut Option<Limiter>,
    delay: &mut Option<u128>,
    now: u64,
    outcome: Transfer,
) -> (armed: Result<Option<u128>, Poisoned>)
    ensures
        (Half { budget: budget(*old(limiter)), delay: *old(delay) }).settles(
            Half { budget: budget(*final(limiter)), delay: *final(delay) },
            now as nat,
            outcome,
            armed,
        ),
{
    match outcome {
        Transfer::Done(count) => {
            match limiter {
                Some(Limiter::Private(own)) => {
                    let pending = pace(own, now, count);
                    *delay = pending;
                    Ok(pending)
                },
                Some(Limiter::Shared(shared)) => {
                    match register_traffic(shared, now, count) {
                        Ok(pending) => {
                            *delay = pending;
                            Ok(pending)
                        },
                        Err(poisoned) => Err(poisoned),
                    }
                },
                None => Ok(None),
            }
        },
        _ => Ok(None),
    }
}

} // verus!
