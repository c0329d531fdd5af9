//! Token-bucket accounting.
//!
//! Time is a count of nanoseconds on a monotonic clock whose origin the
//! caller fixes once. Tokens are counted in billionths of a byte, so that a
//! limiter of `rate` bytes per second gains exactly `rate` tokens per
//! nanosecond and no fraction is ever lost to rounding.

use vstd::prelude::*;

verus! {

/// Number of tokens that one transferred byte costs.
pub const TOKENS_PER_BYTE: u64 = 1_000_000_000;

/// The lowest balance that a limiter can hold, in tokens: the least value of
/// the type that holds it. A debit that would go below it stops there.
pub const MIN_TOKENS: i128 = i128::MIN;

/// The mathematical state of a token bucket.
pub struct Bucket {
    /// Bytes permitted per second; `0` means unlimited.
    pub rate: nat,
    /// Largest burst, in bytes.
    pub bucket_size: nat,
    /// Current balance in tokens; negative while in debt.
    pub tokens: int,
    /// Time of the latest accounting event, in nanoseconds.
    pub last_update: nat,
}

/// The larger of two integers.
pub open spec fn max_int(a: int, b: int) -> int {
    if a >= b {
        a
    } else {
        b
    }
}

/// The smaller of two integers.
pub open spec fn min_int(a: int, b: int) -> int {
    if a <= b {
        a
    } else {
        b
    }
}

/// The least `w` with `w * rate >= debt`, for a positive `rate` and a
/// non-negative `debt`.
pub open spec fn nanos_to_repay(debt: int, rate: int) -> int {
    (debt + rate - 1) / rate
}

impl Bucket {
    /// The balance of a full bucket, in tokens.
    pub open spec fn capacity(self) -> int {
        self.bucket_size * TOKENS_PER_BYTE
    }

    /// The balance never exceeds the capacity, and it is one that the type of
    /// the balance holds.
    pub open spec fn wf(self) -> bool {
        MIN_TOKENS <= self.tokens <= self.capacity()
    }

    /// A bucket that holds `tokens`, or the capacity if that is less, at
    /// `start_time`.
    pub open spec fn with_tokens(
        rate: nat,
        bucket_size: nat,
        start_time: nat,
        tokens: int,
    ) -> Bucket {
        Bucket {
            rate,
            bucket_size,
            tokens: min_int(bucket_size * TOKENS_PER_BYTE, tokens),
            last_update: start_time,
        }
    }

    /// A full bucket at `start_time`.
    pub open spec fn full(rate: nat, bucket_size: nat, start_time: nat) -> Bucket {
        Bucket { rate, bucket_size, tokens: bucket_size * TOKENS_PER_BYTE, last_update: start_time }
    }

    /// The balance as of `now`, before anything is debited: `rate` tokens are
    /// gained per nanosecond since the latest event, up to the capacity. A
    /// `now` that lies before the latest event gains nothing.
    pub open spec fn refilled(self, now: nat) -> int {
        if now <= self.last_update {
            self.tokens
        } else {
            min_int(self.capacity(), self.tokens + self.rate * (now - self.last_update))
        }
    }

    /// The state after `byte_count` bytes are accounted for at `now`: the
    /// refilled balance less the cost of the bytes, whatever the rate, as far
    /// as the type of the balance holds it.
    pub open spec fn register(self, now: nat, byte_count: nat) -> Bucket {
        Bucket {
            rate: self.rate,
            bucket_size: self.bucket_size,
            tokens: max_int(
                MIN_TOKENS as int,
                self.refilled(now) - byte_count * TOKENS_PER_BYTE,
            ),
            last_update: if now <= self.last_update {
                self.last_update
            } else {
                now
            },
        }
    }

    /// How long to pause, in nanoseconds, until refill clears the debt.
    pub open spec fn wait(self) -> nat {
        if self.rate == 0 || self.tokens >= 0 {
            0
        } else {
            nanos_to_repay(-self.tokens, self.rate as int) as nat
        }
    }
}

/// Token-bucket rate limiter.
///
/// The balance is kept in tokens and may be negative: a transfer is never
/// refused, it only leaves a debt that later refill has to repay.
pub struct RateLimiter {
    rate: u64,
    bucket_size: u64,
    tokens: i128,
    last_update: u64,
}

impl View for RateLimiter {
    type V = Bucket;

    closed spec fn view(&self) -> Bucket {
        Bucket {
            rate: self.rate as nat,
            bucket_size: self.bucket_size as nat,
            tokens: self.tokens as int,
            last_update: self.last_update as nat,
        }
    }
}

/// Bounds on the capacity of a bucket whose size is a machine integer.
proof fn lemma_limits(bucket_size: u64)
    ensures
        0 <= bucket_size * TOKENS_PER_BYTE <= 0xffff_ffff_ffff_ffff * 1_000_000_000,
{
    assert(0 <= bucket_size * TOKENS_PER_BYTE <= 0xffff_ffff_ffff_ffff * 1_000_000_000)
        by (nonlinear_arith);
}

/// `nanos_to_repay(debt, rate)` is the least number of nanoseconds in which
/// `rate` tokens per nanosecond make up for `debt`.
pub proof fn lemma_nanos_to_repay(debt: int, rate: int)
    requires
        rate > 0,
        debt >= 0,
    ensures
        nanos_to_repay(debt, rate) >= 0,
        nanos_to_repay(debt, rate) * rate >= debt,
        (nanos_to_repay(debt, rate) - 1) * rate < debt,
        debt > 0 ==> nanos_to_repay(debt, rate) > 0,
{
    let w = nanos_to_repay(debt, rate);
    let n = debt + rate - 1;
    assert(n == rate * (n / rate) + n % rate && 0 <= n % rate < rate) by (nonlinear_arith)
        requires
            rate > 0,
    ;
    assert(w * rate == rate * w) by (nonlinear_arith);
    assert((w - 1) * rate == w * rate - rate) by (nonlinear_arith);
    if w < 0 {
        assert(w * rate <= -rate) by (nonlinear_arith)
            requires
                w <= -1,
                rate > 0,
        ;
    }
    if debt > 0 && w <= 0 {
        assert(w * rate <= 0) by (nonlinear_arith)
            requires
                w <= 0,
                rate > 0,
        ;
    }
}

/// A debt within `limit` nanoseconds' worth of refill takes at most `limit`
/// nanoseconds to repay.
pub proof fn lemma_nanos_to_repay_bounded(debt: int, rate: int, limit: int)
    requires
        rate > 0,
        0 <= debt <= rate * limit,
    ensures
        nanos_to_repay(debt, rate) <= limit,
{
    lemma_nanos_to_repay(debt, rate);
    let w = nanos_to_repay(debt, rate);
    if w > limit {
        assert((w - 1) * rate >= limit * rate) by (nonlinear_arith)
            requires
                w - 1 >= limit,
                rate > 0,
        ;
        assert(limit * rate == rate * limit) by (nonlinear_arith);
    }
}

impl RateLimiter {
    #[verifier::type_invariant]
    spec fn inv(self) -> bool {
        self@.wf()
    }

    /// Creates a limiter whose bucket is full at `start_time`.
    pub fn with_start_time(rate: u64, bucket_size: u64, start_time: u64) -> (limiter: Self)
        ensures
            limiter@ == Bucket::full(rate as nat, bucket_size as nat, start_time as nat),
            limiter@.wf(),
    {
        proof {
            lemma_limits(bucket_size);
        }
        let tokens: i128 = bucket_size as i128 * TOKENS_PER_BYTE as i128;
        RateLimiter { rate, bucket_size, tokens, last_update: start_time }
    }

    /// Creates a limiter that starts at `start_time` with the given balance,
    /// as when a limiter is carried over with its credit or debt. A balance
    /// above the capacity is brought down to the capacity; a debt is kept as
    /// it is, whatever the rate.
    pub fn with_initial_tokens(
        rate: u64,
        bucket_size: u64,
        start_time: u64,
        tokens: i128,
    ) -> (limiter: Self)
        ensures
            limiter@ == Bucket::with_tokens(
                rate as nat,
                bucket_size as nat,
                start_time as nat,
                tokens as int,
            ),
            limiter@.wf(),
    {
        proof {
            lemma_limits(bucket_size);
        }
        let capacity: i128 = bucket_size as i128 * TOKENS_PER_BYTE as i128;
        let balance: i128 = if tokens > capacity {
            capacity
        } else {
            tokens
        };
        RateLimiter { rate, bucket_size, tokens: balance, last_update: start_time }
    }

    /// Bytes permitted per second; `0` means unlimited.
    pub fn rate(&self) -> (rate: u64)
        ensures
            rate == self@.rate,
    {
        self.rate
    }

    /// Largest burst, in bytes.
    pub fn bucket_size(&self) -> (bucket_size: u64)
        ensures
            bucket_size == self@.bucket_size,
    {
        self.bucket_size
    }

    /// Current balance in tokens; negative while in debt.
    pub fn tokens(&self) -> (tokens: i128)
        ensures
            tokens == self@.tokens,
            self@.wf(),
    {
        proof {
            use_type_invariant(self);
        }
        self.tokens
    }

    /// Time of the latest accounting event, in nanoseconds.
    pub fn last_update(&self) -> (last_update: u64)
        ensures
            last_update == self@.last_update,
    {
        self.last_update
    }

    /// Accounts for `byte_count` bytes transferred at `now` and returns how
    /// many nanoseconds to pause before transferring more.
    ///
    /// The bucket is first refilled for the time since the latest event, then
    /// debited unconditionally. The pause is the time that refill needs to
    /// clear the resulting debt, and zero when there is none or when the
    /// limiter is unlimited.
    ///
    /// A `now` that lies before the latest event refills nothing and leaves
    /// the time of the latest event where it is, so that no span of time is
    /// ever refilled twice. The balance stops at `MIN_TOKENS`, which no single
    /// transfer reaches from a balance that is not in debt.
    pub fn register_traffic(&mut self, now: u64, byte_count: u64) -> (wait: u128)
        ensures
            final(self)@ == old(self)@.register(now as nat, byte_count as nat),
            final(self)@.wf(),
            wait == final(self)@.wait(),
            old(self)@.rate == 0 ==> wait == 0,
    {
        proof {
            use_type_invariant(&*self);
            lemma_limits(self.bucket_size);
        }
        let capacity: i128 = self.bucket_size as i128 * TOKENS_PER_BYTE as i128;
        let mut tokens: i128 = self.tokens;
        let mut last_update: u64 = self.last_update;
        if now > last_update {
            let elapsed: u64 = now - last_update;
            assert(0 <= self.rate * elapsed <= 0xffff_ffff_ffff_ffff * 0xffff_ffff_ffff_ffff)
                by (nonlinear_arith)
                requires
                    0 <= self.rate <= 0xffff_ffff_ffff_ffff,
                    0 <= elapsed <= 0xffff_ffff_ffff_ffff,
            ;
            let gain: u128 = self.rate as u128 * elapsed as u128;
            tokens = match tokens.checked_add_unsigned(gain) {
                Some(refilled) => if refilled < capacity {
                    refilled
                } else {
                    capacity
                },
                None => capacity,
            };
            last_update = now;
        }
        assert(tokens == old(self)@.refilled(now as nat));
        assert(0 <= byte_count * TOKENS_PER_BYTE <= 0xffff_ffff_ffff_ffff * 1_000_000_000)
            by (nonlinear_arith);
        let cost: i128 = byte_count as i128 * TOKENS_PER_BYTE as i128;
        tokens = match tokens.checked_sub(cost) {
            Some(debited) => debited,
            None => MIN_TOKENS,
        };
        let wait: u128 = if self.rate == 0 || tokens >= 0 {
            0
        } else {
            let debt: u128 = if tokens == MIN_TOKENS {
                0x8000_0000_0000_0000_0000_0000_0000_0000u128
            } else {
                (-tokens) as u128
            };
            (debt + (self.rate - 1) as u128) / self.rate as u128
        };
        self.tokens = tokens;
        self.last_update = last_update;
        wait
    }
}

} // verus!
