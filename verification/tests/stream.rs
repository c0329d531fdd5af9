use rate_limited_stream::handle::SharedRateLimiter;
use rate_limited_stream::limiter::RateLimiter;
use rate_limited_stream::pacing::{Transfer, MIN_DELAY_NANOS};
use rate_limited_stream::stream::RateLimitedStream;

const SECOND: u64 = 1_000_000_000;
const WAIT: u128 = 1_000_000_000;

#[test]
fn new_stream_is_idle() {
    let mut stream = RateLimitedStream::new(vec![1u8, 2, 3], 1000, 1000, 0);
    assert_eq!(stream.read_delay(), None);
    assert_eq!(stream.write_delay(), None);
    assert_eq!(stream.get_ref(), &vec![1u8, 2, 3]);
    assert!(stream.begin_read(false));
    assert!(stream.begin_write(false));
}

#[test]
fn inner_stream_is_reachable() {
    let mut stream = RateLimitedStream::with_limiter(vec![1u8], None, None);
    stream.get_mut().push(2);
    assert_eq!(stream.get_ref(), &vec![1u8, 2]);
    assert_eq!(stream.into_inner(), vec![1u8, 2]);
}

#[test]
fn write_write_wait_write_through_a_stream() {
    let mut stream = RateLimitedStream::new((), 1000, 1000, 0);
    assert!(stream.begin_write(true));
    assert_eq!(stream.finish_write(0, Transfer::Done(1000)), Ok(None));
    assert!(stream.begin_write(true));
    assert_eq!(stream.finish_write(0, Transfer::Done(1000)), Ok(Some(WAIT)));
    assert_eq!(stream.write_delay(), Some(WAIT));
    // The next write is held back until the timer has run out.
    assert!(!stream.begin_write(false));
    assert_eq!(stream.write_delay(), Some(WAIT));
    assert!(stream.begin_write(true));
    assert_eq!(stream.write_delay(), None);
    assert_eq!(stream.finish_write(SECOND + SECOND / 2, Transfer::Done(500)), Ok(None));
    assert_eq!(stream.write_delay(), None);
}

#[test]
fn both_directions_start_with_a_full_bucket() {
    let mut stream = RateLimitedStream::new((), 1000, 1000, 7);
    assert_eq!(stream.finish_read(7, Transfer::Done(1000)), Ok(None));
    assert_eq!(stream.finish_write(7, Transfer::Done(1000)), Ok(None));
    assert_eq!(stream.finish_read(7, Transfer::Done(10)), Ok(Some(MIN_DELAY_NANOS)));
    assert_eq!(stream.finish_write(7, Transfer::Done(20)), Ok(Some(2 * MIN_DELAY_NANOS)));
}

#[test]
fn saturated_reads_do_not_slow_writes() {
    let mut busy = RateLimitedStream::new((), 1000, 1000, 0);
    let mut quiet = RateLimitedStream::new((), 1000, 1000, 0);
    let mut now = 0;
    for _ in 0..50 {
        assert!(busy.begin_read(true));
        assert!(busy.finish_read(now, Transfer::Done(100_000)).unwrap().is_some());
        assert!(!busy.begin_read(false));
        for stream in [&mut busy, &mut quiet] {
            assert!(stream.begin_write(false));
            assert_eq!(stream.finish_write(now, Transfer::Done(100)), Ok(None));
            assert_eq!(stream.write_delay(), None);
        }
        now += SECOND / 10;
    }
    let armed = quiet.finish_write(now, Transfer::Done(2000));
    assert_eq!(busy.finish_write(now, Transfer::Done(2000)), armed);
    assert_eq!(busy.write_delay(), Some(WAIT));
}

#[test]
fn saturated_writes_do_not_slow_reads() {
    let mut stream = RateLimitedStream::new((), 1000, 1000, 0);
    assert_eq!(stream.finish_write(0, Transfer::Done(1_000_000)), Ok(Some(999 * WAIT)));
    assert!(!stream.begin_write(false));
    assert!(stream.begin_read(false));
    assert_eq!(stream.finish_read(0, Transfer::Done(1000)), Ok(None));
    assert_eq!(stream.read_delay(), None);
    assert_eq!(stream.write_delay(), Some(999 * WAIT));
}

#[test]
fn negligible_wait_arms_no_timer() {
    let mut stream = RateLimitedStream::new((), 1000, 1000, 0);
    assert!(stream.begin_write(false));
    assert_eq!(stream.finish_write(0, Transfer::Done(1009)), Ok(None));
    assert_eq!(stream.write_delay(), None);
    // The next call is not suspended, whatever a timer would say.
    assert!(stream.begin_write(false));
    assert_eq!(stream.finish_write(0, Transfer::Done(1)), Ok(Some(MIN_DELAY_NANOS)));
    assert!(!stream.begin_write(false));
}

#[test]
fn new_stream_is_unaffected_by_a_dropped_one() {
    let mut first = RateLimitedStream::new((), 1000, 1000, 0);
    assert_eq!(first.finish_write(0, Transfer::Done(50_000)), Ok(Some(49 * WAIT)));
    assert_eq!(first.finish_read(0, Transfer::Done(50_000)), Ok(Some(49 * WAIT)));
    assert!(!first.begin_write(false));
    drop(first);
    let mut second = RateLimitedStream::new((), 1000, 1000, 1);
    assert_eq!(second.write_delay(), None);
    assert_eq!(second.read_delay(), None);
    assert!(second.begin_write(false));
    assert_eq!(second.finish_write(1, Transfer::Done(1000)), Ok(None));
    assert!(second.begin_read(false));
    assert_eq!(second.finish_read(1, Transfer::Done(1000)), Ok(None));
}

#[test]
fn unlimited_directions_never_delay() {
    let mut stream = RateLimitedStream::with_limiter((), None, None);
    for _ in 0..10 {
        assert!(stream.begin_read(false));
        assert_eq!(stream.finish_read(0, Transfer::Done(usize::MAX)), Ok(None));
        assert!(stream.begin_write(false));
        assert_eq!(stream.finish_write(0, Transfer::Done(usize::MAX)), Ok(None));
    }
    let mut stream = RateLimitedStream::new((), 0, 0, 0);
    for _ in 0..10 {
        assert!(stream.begin_write(false));
        assert_eq!(stream.finish_write(0, Transfer::Done(usize::MAX)), Ok(None));
    }
}

#[test]
fn one_direction_may_be_limited_alone() {
    let limiter = SharedRateLimiter::new(RateLimiter::with_start_time(1000, 0, 0));
    let mut stream = RateLimitedStream::with_limiter((), None, Some(limiter));
    assert_eq!(stream.finish_read(0, Transfer::Done(5000)), Ok(None));
    assert_eq!(stream.finish_write(0, Transfer::Done(5000)), Ok(Some(5 * WAIT)));
    assert_eq!(stream.read_delay(), None);
    assert_eq!(stream.write_delay(), Some(5 * WAIT));
}

#[test]
fn pending_and_failed_attempts_are_not_accounted_for() {
    let limiter = SharedRateLimiter::new(RateLimiter::with_start_time(1000, 1000, 0));
    let mut stream = RateLimitedStream::with_limiter((), Some(limiter.clone()), Some(limiter));
    for outcome in [Transfer::Pending, Transfer::Failed] {
        assert!(stream.begin_read(true));
        assert_eq!(stream.finish_read(5, outcome), Ok(None));
        assert!(stream.begin_write(true));
        assert_eq!(stream.finish_write(5, outcome), Ok(None));
    }
    // The bucket is still full: it holds 1000 bytes and no more.
    assert_eq!(stream.finish_read(0, Transfer::Done(1009)), Ok(None));
    assert_eq!(stream.finish_write(0, Transfer::Done(1)), Ok(Some(MIN_DELAY_NANOS)));
}

#[test]
fn streams_that_share_a_limiter_share_one_budget() {
    let limiter = SharedRateLimiter::new(RateLimiter::with_start_time(1000, 1000, 0));
    let mut first = RateLimitedStream::with_limiter((), None, Some(limiter.clone()));
    let mut second = RateLimitedStream::with_limiter((), None, Some(limiter));
    assert_eq!(first.finish_write(0, Transfer::Done(600)), Ok(None));
    assert_eq!(second.finish_write(0, Transfer::Done(600)), Ok(Some(WAIT / 5)));
    assert_eq!(first.finish_write(0, Transfer::Done(800)), Ok(Some(WAIT)));
    assert_eq!(second.finish_write(0, Transfer::Done(0)), Ok(Some(WAIT)));
}

#[test]
fn throughput_stays_within_the_budget() {
    // A writer that pushes as hard as the stream lets it, against a clock
    // that moves only while a delay is served.
    let rate = 10_000u64;
    let bucket_size = 4_000u64;
    let chunk = 1_500usize;
    let mut stream = RateLimitedStream::new((), rate, bucket_size, 0);
    let mut now = 0u64;
    let mut total = 0u128;
    for _ in 0..2_000 {
        if let Some(wait) = stream.write_delay() {
            assert!(!stream.begin_write(false));
            now += u64::try_from(wait).unwrap();
        }
        assert!(stream.begin_write(true));
        let armed = stream.finish_write(now, Transfer::Done(chunk)).unwrap();
        total += chunk as u128;
        assert_eq!(armed, stream.write_delay());
        let budget = (bucket_size as u128 + chunk as u128) * 1_000_000_000
            + rate as u128 * (now as u128 + MIN_DELAY_NANOS as u128);
        assert!(total * 1_000_000_000 <= budget);
    }
    // The limit is also reached: the writer is not held back for nothing.
    assert!(total * 1_000_000_000 + chunk as u128 * 1_000_000_000 >= rate as u128 * now as u128);
}
