//! What holds of a token bucket over one accounting step and over whole
//! sequences of them.

use crate::limiter::{
    lemma_nanos_to_repay,
    lemma_nanos_to_repay_bounded,
    nanos_to_repay,
    Bucket,
    MIN_TOKENS,
    TOKENS_PER_BYTE,
};
use vstd::prelude::*;

verus! {

/// One accounting step: `byte_count` bytes transferred at `now`.
pub struct Traffic {
    /// Time of the transfer, in nanoseconds.
    pub now: nat,
    /// Number of bytes transferred.
    pub byte_count: nat,
}

impl Bucket {
    /// The state after the accounting steps `calls`, taken in order.
    pub open spec fn run(self, calls: Seq<Traffic>) -> Bucket
        decreases calls.len(),
    {
        if calls.len() == 0 {
            self
        } else {
            self.run(calls.drop_last()).register(calls.last().now, calls.last().byte_count)
        }
    }

    /// Every transfer after the first comes no earlier than the one before
    /// it, and late enough for the time since then to refill what it costs;
    /// the first comes no earlier than the latest event and finds its cost in
    /// the bucket. No transfer is larger than the bucket.
    pub open spec fn prepaid(self, calls: Seq<Traffic>) -> bool {
        forall|i: int|
            #![trigger calls[i]]
            0 <= i < calls.len() ==> {
                &&& calls[i].byte_count <= self.bucket_size
                &&& if i == 0 {
                    &&& calls[0].now >= self.last_update
                    &&& self.tokens >= calls[0].byte_count * TOKENS_PER_BYTE
                } else {
                    &&& calls[i].now >= calls[i - 1].now
                    &&& self.rate * (calls[i].now - calls[i - 1].now) >= calls[i].byte_count
                        * TOKENS_PER_BYTE
                }
            }
    }

    /// Every transfer after the first comes no earlier than the one before
    /// it, and late enough for the time since then to refill what that one
    /// cost; the first comes no earlier than the latest event. No transfer is
    /// larger than the bucket.
    pub open spec fn repaid(self, calls: Seq<Traffic>) -> bool {
        forall|i: int|
            #![trigger calls[i]]
            0 <= i < calls.len() ==> {
                &&& calls[i].byte_count <= self.bucket_size
                &&& if i == 0 {
                    calls[0].now >= self.last_update
                } else {
                    &&& calls[i].now >= calls[i - 1].now
                    &&& self.rate * (calls[i].now - calls[i - 1].now) >= calls[i - 1].byte_count
                        * TOKENS_PER_BYTE
                }
            }
    }
}

/// An accounting step keeps the rate and the bucket size, keeps the balance
/// within its bounds, and never moves the time of the latest event back.
pub proof fn lemma_register_keeps_wf(bucket: Bucket, now: nat, byte_count: nat)
    requires
        bucket.wf(),
    ensures
        bucket.register(now, byte_count).wf(),
        bucket.register(now, byte_count).rate == bucket.rate,
        bucket.register(now, byte_count).bucket_size == bucket.bucket_size,
        bucket.register(now, byte_count).last_update >= bucket.last_update,
        bucket.register(now, byte_count).last_update >= now,
        bucket.refilled(now) <= bucket.capacity(),
        bucket.refilled(now) >= bucket.tokens,
        bucket.register(now, byte_count).wait() <= u128::MAX,
{
    let cost = byte_count * TOKENS_PER_BYTE;
    assert(cost >= 0) by (nonlinear_arith)
        requires
            cost == byte_count * TOKENS_PER_BYTE,
    ;
    if now > bucket.last_update {
        let elapsed = now - bucket.last_update;
        assert(bucket.rate * elapsed >= 0) by (nonlinear_arith)
            requires
                elapsed >= 0,
        ;
    }
    let after = bucket.register(now, byte_count);
    if after.rate > 0 && after.tokens < 0 {
        let deepest = -(MIN_TOKENS as int);
        assert(after.rate * deepest >= deepest) by (nonlinear_arith)
            requires
                after.rate >= 1,
                deepest >= 0,
        ;
        lemma_nanos_to_repay(-after.tokens, after.rate as int);
        lemma_nanos_to_repay_bounded(-after.tokens, after.rate as int, deepest);
    }
}

/// A transfer that finds its cost in the refilled bucket leaves no debt and
/// asks for no wait.
pub proof fn lemma_covered_transfer_is_free(bucket: Bucket, now: nat, byte_count: nat)
    requires
        bucket.wf(),
        bucket.refilled(now) >= byte_count * TOKENS_PER_BYTE,
    ensures
        bucket.register(now, byte_count).tokens == bucket.refilled(now) - byte_count
            * TOKENS_PER_BYTE,
        bucket.register(now, byte_count).tokens >= 0,
        bucket.register(now, byte_count).wait() == 0,
{
}

/// Right after construction, whatever the rate, a transfer of no more than
/// `bucket_size` bytes asks for no wait.
pub proof fn lemma_fresh_burst_is_free(
    rate: nat,
    bucket_size: nat,
    start_time: nat,
    now: nat,
    byte_count: nat,
)
    requires
        byte_count <= bucket_size,
    ensures
        Bucket::full(rate, bucket_size, start_time).register(now, byte_count).wait() == 0,
{
    let bucket = Bucket::full(rate, bucket_size, start_time);
    assert(0 <= byte_count * TOKENS_PER_BYTE <= bucket_size * TOKENS_PER_BYTE)
        by (nonlinear_arith)
        requires
            byte_count <= bucket_size,
    ;
    lemma_register_keeps_wf(bucket, now, byte_count);
    lemma_covered_transfer_is_free(bucket, now, byte_count);
}

/// A limiter of rate zero is unlimited: it asks for no wait, whatever its
/// state, the time and the number of bytes.
pub proof fn lemma_unlimited_never_waits(bucket: Bucket, now: nat, byte_count: nat)
    requires
        bucket.rate == 0,
    ensures
        bucket.register(now, byte_count).wait() == 0,
{
}

/// A single transfer of `byte_count >= bucket_size` bytes through a full
/// bucket, at the time the bucket was filled, asks for the time that refill
/// needs to make up for the excess over the bucket, rounded up to a whole
/// nanosecond. For `k * bucket_size` bytes that is the time to refill
/// `(k - 1) * bucket_size` bytes. The transfer is accounted for in full.
pub proof fn lemma_oversized_burst_wait(
    rate: nat,
    bucket_size: nat,
    start_time: nat,
    byte_count: nat,
)
    requires
        rate > 0,
        bucket_size <= byte_count <= u64::MAX,
    ensures
        Bucket::full(rate, bucket_size, start_time).register(start_time, byte_count).tokens == -(
        (byte_count - bucket_size) * TOKENS_PER_BYTE),
        Bucket::full(rate, bucket_size, start_time).register(start_time, byte_count).wait()
            == nanos_to_repay((byte_count - bucket_size) * TOKENS_PER_BYTE, rate as int),
        Bucket::full(rate, bucket_size, start_time).register(start_time, byte_count).wait() * rate
            >= (byte_count - bucket_size) * TOKENS_PER_BYTE,
        (Bucket::full(rate, bucket_size, start_time).register(start_time, byte_count).wait() - 1)
            * rate < (byte_count - bucket_size) * TOKENS_PER_BYTE,
{
    let excess = (byte_count - bucket_size) * TOKENS_PER_BYTE;
    assert(excess == byte_count * TOKENS_PER_BYTE - bucket_size * TOKENS_PER_BYTE && 0 <= excess
        <= 0xffff_ffff_ffff_ffff * 1_000_000_000) by (nonlinear_arith)
        requires
            excess == (byte_count - bucket_size) * TOKENS_PER_BYTE,
            0 <= bucket_size <= byte_count <= 0xffff_ffff_ffff_ffff,
    ;
    lemma_nanos_to_repay(excess, rate as int);
}

/// The wait that an accounting step asks for is the time that refill needs
/// to clear the debt: the balance as of `wait` nanoseconds after the step is
/// not negative, and one nanosecond earlier it still is.
pub proof fn lemma_wait_clears_debt(bucket: Bucket, now: nat, byte_count: nat)
    requires
        bucket.wf(),
        bucket.rate > 0,
    ensures
        ({
            let after = bucket.register(now, byte_count);
            &&& after.refilled(after.last_update + after.wait()) >= 0
            &&& after.wait() > 0 ==> after.refilled((after.last_update + after.wait() - 1) as nat)
                < 0
            &&& after.wait() == 0 <==> after.tokens >= 0
        }),
{
    lemma_register_keeps_wf(bucket, now, byte_count);
    let after = bucket.register(now, byte_count);
    assert(after.capacity() >= 0) by (nonlinear_arith)
        requires
            after.capacity() == after.bucket_size * TOKENS_PER_BYTE,
    ;
    if after.tokens < 0 {
        lemma_nanos_to_repay(-after.tokens, after.rate as int);
        let w = after.wait();
        assert(after.rate * ((after.last_update + w) - after.last_update) == w * after.rate)
            by (nonlinear_arith);
        assert(after.rate * ((after.last_update + w - 1) - after.last_update) == (w - 1)
            * after.rate) by (nonlinear_arith);
        assert(0 * after.rate == 0) by (nonlinear_arith);
    }
}

/// Transfers at the nominal rate never wait: where each transfer finds its
/// cost refilled by the time since the one before it, every wait that comes
/// back is zero and the balance never falls below zero.
pub proof fn lemma_prepaid_transfers_never_wait(bucket: Bucket, calls: Seq<Traffic>)
    requires
        bucket.wf(),
        bucket.tokens >= 0,
        bucket.prepaid(calls),
    ensures
        bucket.run(calls).wf(),
        bucket.run(calls).tokens >= 0,
        bucket.run(calls).wait() == 0,
        bucket.run(calls).rate == bucket.rate,
        bucket.run(calls).bucket_size == bucket.bucket_size,
        calls.len() > 0 ==> bucket.run(calls).last_update == calls.last().now,
        forall|n: int| 0 <= n <= calls.len() ==> (#[trigger] bucket.run(calls.take(n))).wait() == 0,
    decreases calls.len(),
{
    if calls.len() == 0 {
        assert forall|n: int| 0 <= n <= calls.len() implies (#[trigger] bucket.run(
            calls.take(n),
        )).wait() == 0 by {
            assert(calls.take(n).len() == 0);
        }
    } else {
        let earlier = calls.drop_last();
        let call = calls.last();
        let last = calls.len() - 1;
        assert(call == calls[last]);
        assert forall|i: int| #![trigger earlier[i]] 0 <= i < earlier.len() implies {
            &&& earlier[i].byte_count <= bucket.bucket_size
            &&& if i == 0 {
                &&& earlier[0].now >= bucket.last_update
                &&& bucket.tokens >= earlier[0].byte_count * TOKENS_PER_BYTE
            } else {
                &&& earlier[i].now >= earlier[i - 1].now
                &&& bucket.rate * (earlier[i].now - earlier[i - 1].now) >= earlier[i].byte_count
                    * TOKENS_PER_BYTE
            }
        } by {
            assert(earlier[i] == calls[i]);
            if i > 0 {
                assert(earlier[i - 1] == calls[i - 1]);
            }
        }
        lemma_prepaid_transfers_never_wait(bucket, earlier);
        let before = bucket.run(earlier);
        let cost = call.byte_count * TOKENS_PER_BYTE;
        assert(0 <= cost <= before.capacity()) by (nonlinear_arith)
            requires
                cost == call.byte_count * TOKENS_PER_BYTE,
                before.capacity() == before.bucket_size * TOKENS_PER_BYTE,
                call.byte_count <= before.bucket_size,
        ;
        if last == 0 {
            assert(earlier.len() == 0);
            assert(before == bucket);
            lemma_register_keeps_wf(bucket, call.now, call.byte_count);
        } else {
            assert(earlier.last() == calls[last - 1]);
            assert(before.last_update == calls[last - 1].now);
            if call.now > before.last_update {
                assert(before.refilled(call.now) >= cost);
            } else {
                assert(before.rate * (call.now - before.last_update) == 0) by (nonlinear_arith)
                    requires
                        call.now - before.last_update == 0,
                ;
            }
        }
        assert(before.refilled(call.now) >= cost);
        lemma_register_keeps_wf(before, call.now, call.byte_count);
        lemma_covered_transfer_is_free(before, call.now, call.byte_count);
        assert(bucket.run(calls) == before.register(call.now, call.byte_count));
        assert forall|n: int| 0 <= n <= calls.len() implies (#[trigger] bucket.run(
            calls.take(n),
        )).wait() == 0 by {
            if n == calls.len() {
                assert(calls.take(n) == calls);
            } else {
                assert(calls.take(n) == earlier.take(n));
            }
        }
    }
}

/// Transfers at the nominal rate never wait: from a full bucket, where each
/// transfer leaves the time to refill what it cost before the next one
/// comes, every wait that comes back is zero, and every transfer finds the
/// bucket full.
pub proof fn lemma_repaid_transfers_never_wait(bucket: Bucket, calls: Seq<Traffic>)
    requires
        bucket.tokens == bucket.capacity(),
        bucket.repaid(calls),
    ensures
        bucket.run(calls).wf(),
        bucket.run(calls).tokens >= 0,
        bucket.run(calls).wait() == 0,
        bucket.run(calls).rate == bucket.rate,
        bucket.run(calls).bucket_size == bucket.bucket_size,
        calls.len() > 0 ==> {
            &&& bucket.run(calls).last_update == calls.last().now
            &&& bucket.run(calls).tokens == bucket.capacity() - calls.last().byte_count
                * TOKENS_PER_BYTE
        },
        forall|n: int| 0 <= n <= calls.len() ==> (#[trigger] bucket.run(calls.take(n))).wait() == 0,
    decreases calls.len(),
{
    assert(bucket.capacity() >= 0) by (nonlinear_arith)
        requires
            bucket.capacity() == bucket.bucket_size * TOKENS_PER_BYTE,
    ;
    if calls.len() == 0 {
        assert forall|n: int| 0 <= n <= calls.len() implies (#[trigger] bucket.run(
            calls.take(n),
        )).wait() == 0 by {
            assert(calls.take(n).len() == 0);
        }
    } else {
        let earlier = calls.drop_last();
        let call = calls.last();
        let last = calls.len() - 1;
        assert(call == calls[last]);
        assert forall|i: int| #![trigger earlier[i]] 0 <= i < earlier.len() implies {
            &&& earlier[i].byte_count <= bucket.bucket_size
            &&& if i == 0 {
                earlier[0].now >= bucket.last_update
            } else {
                &&& earlier[i].now >= earlier[i - 1].now
                &&& bucket.rate * (earlier[i].now - earlier[i - 1].now) >= earlier[i
                    - 1].byte_count * TOKENS_PER_BYTE
            }
        } by {
            assert(earlier[i] == calls[i]);
            if i > 0 {
                assert(earlier[i - 1] == calls[i - 1]);
            }
        }
        lemma_repaid_transfers_never_wait(bucket, earlier);
        let before = bucket.run(earlier);
        let cost = call.byte_count * TOKENS_PER_BYTE;
        assert(0 <= cost <= before.capacity()) by (nonlinear_arith)
            requires
                cost == call.byte_count * TOKENS_PER_BYTE,
                before.capacity() == before.bucket_size * TOKENS_PER_BYTE,
                call.byte_count <= before.bucket_size,
        ;
        if last == 0 {
            assert(earlier.len() == 0);
            assert(before == bucket);
        } else {
            assert(earlier.last() == calls[last - 1]);
            assert(before.last_update == calls[last - 1].now);
            if call.now <= before.last_update {
                assert(bucket.rate * (call.now - calls[last - 1].now) == 0) by (nonlinear_arith)
                    requires
                        call.now - calls[last - 1].now == 0,
                ;
            }
        }
        assert(before.refilled(call.now) == before.capacity());
        lemma_register_keeps_wf(before, call.now, call.byte_count);
        lemma_covered_transfer_is_free(before, call.now, call.byte_count);
        assert(bucket.run(calls) == before.register(call.now, call.byte_count));
        assert forall|n: int| 0 <= n <= calls.len() implies (#[trigger] bucket.run(
            calls.take(n),
        )).wait() == 0 by {
            if n == calls.len() {
                assert(calls.take(n) == calls);
            } else {
                assert(calls.take(n) == earlier.take(n));
            }
        }
    }
}

} // verus!
