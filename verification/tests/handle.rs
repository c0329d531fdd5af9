use rate_limited_stream::handle::{register_traffic, settle, Limiter, SharedRateLimiter};
use rate_limited_stream::limiter::{RateLimiter, TOKENS_PER_BYTE};
use rate_limited_stream::pacing::{Transfer, MIN_DELAY_NANOS};

const SECOND: u64 = 1_000_000_000;
const WAIT: u128 = 1_000_000_000;

#[test]
fn shared_limiter_accounts_under_the_lock() {
    let limiter = SharedRateLimiter::new(RateLimiter::with_start_time(1000, 1000, 0));
    assert_eq!(register_traffic(&limiter, 0, 1000), Ok(None));
    // The second step finds what the first one left behind.
    assert_eq!(register_traffic(&limiter, 0, 1000), Ok(Some(WAIT)));
    assert_eq!(register_traffic(&limiter, SECOND, 500), Ok(Some(WAIT / 2)));
    assert_eq!(register_traffic(&limiter, SECOND, 0), Ok(Some(WAIT / 2)));
    assert_eq!(register_traffic(&limiter, 2 * SECOND, 0), Ok(None));
}

#[test]
fn shared_limiter_starts_in_the_state_it_was_made_from() {
    let carried = RateLimiter::with_initial_tokens(1000, 1000, 0, -3000 * TOKENS_PER_BYTE as i128);
    let limiter = SharedRateLimiter::new(carried);
    assert_eq!(register_traffic(&limiter, SECOND, 0), Ok(Some(2 * WAIT)));
}

#[test]
fn shared_limiter_skips_a_negligible_wait() {
    let limiter = SharedRateLimiter::new(RateLimiter::with_start_time(1000, 0, 0));
    assert_eq!(register_traffic(&limiter, 0, 9), Ok(None));
    assert_eq!(register_traffic(&limiter, 0, 1), Ok(Some(MIN_DELAY_NANOS)));
}

#[test]
fn clones_of_a_shared_limiter_draw_on_one_budget() {
    let first = SharedRateLimiter::new(RateLimiter::with_start_time(1000, 1000, 0));
    let second = first.clone();
    assert_eq!(register_traffic(&first, 0, 600), Ok(None));
    assert_eq!(register_traffic(&second, 0, 600), Ok(Some(WAIT / 5)));
    assert_eq!(register_traffic(&first, 0, 800), Ok(Some(WAIT)));
    drop(first);
    assert_eq!(register_traffic(&second, SECOND, 0), Ok(None));
}

fn both_kinds(rate: u64, bucket_size: u64) -> [Option<Limiter>; 2] {
    let own = RateLimiter::with_start_time(rate, bucket_size, 0);
    let shared = RateLimiter::with_start_time(rate, bucket_size, 0);
    [Some(Limiter::Private(own)), Some(Limiter::Shared(SharedRateLimiter::new(shared)))]
}

#[test]
fn settling_arms_the_delay_of_a_transfer() {
    for mut limiter in both_kinds(1000, 1000) {
        let mut delay = None;
        assert_eq!(settle(&mut limiter, &mut delay, 0, Transfer::Done(1000)), Ok(None));
        assert_eq!(delay, None);
        assert_eq!(settle(&mut limiter, &mut delay, 0, Transfer::Done(1000)), Ok(Some(WAIT)));
        assert_eq!(delay, Some(WAIT));
        // A transfer that leaves no wait clears what was pending.
        assert_eq!(settle(&mut limiter, &mut delay, 3 * SECOND, Transfer::Done(1)), Ok(None));
        assert_eq!(delay, None);
        // The bucket holds 999 bytes now.
        let armed = settle(&mut limiter, &mut delay, 3 * SECOND, Transfer::Done(1009));
        assert_eq!(armed, Ok(Some(MIN_DELAY_NANOS)));
    }
}

#[test]
fn settling_changes_the_limiter_of_the_stream() {
    let mut limiter = Some(Limiter::Private(RateLimiter::with_start_time(1000, 1000, 0)));
    let mut delay = None;
    assert_eq!(settle(&mut limiter, &mut delay, 7, Transfer::Done(1500)), Ok(Some(WAIT / 2)));
    match limiter {
        Some(Limiter::Private(own)) => {
            assert_eq!(own.tokens(), -500 * TOKENS_PER_BYTE as i128);
            assert_eq!(own.last_update(), 7);
        }
        _ => panic!("the limiter changed its kind"),
    }
}

#[test]
fn settling_without_a_transfer_changes_nothing() {
    for mut limiter in both_kinds(1000, 0) {
        for outcome in [Transfer::Pending, Transfer::Failed] {
            let mut delay = Some(WAIT);
            assert_eq!(settle(&mut limiter, &mut delay, 5, outcome), Ok(None));
            assert_eq!(delay, Some(WAIT));
        }
        // Nothing was accounted for: nine bytes are still below the threshold.
        let mut delay = None;
        assert_eq!(settle(&mut limiter, &mut delay, 0, Transfer::Done(9)), Ok(None));
        let armed = settle(&mut limiter, &mut delay, 0, Transfer::Done(1));
        assert_eq!(armed, Ok(Some(MIN_DELAY_NANOS)));
    }
}

#[test]
fn settling_without_a_limiter_never_delays() {
    let mut delay = None;
    assert_eq!(settle(&mut None, &mut delay, 0, Transfer::Done(usize::MAX)), Ok(None));
    assert_eq!(delay, None);
    let mut delay = Some(WAIT);
    assert_eq!(settle(&mut None, &mut delay, 0, Transfer::Done(1)), Ok(None));
    assert_eq!(delay, Some(WAIT));
}
