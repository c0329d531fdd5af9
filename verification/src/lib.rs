//! Bandwidth shaping for byte streams.
//!
//! A [`limiter::RateLimiter`] is a token bucket: it turns "this many bytes
//! were just transferred" into "wait this long before transferring more".
//! A [`stream::RateLimitedStream`] applies one limiter to the reads and one
//! to the writes of an inner stream. Transfers are never refused, dropped or
//! reordered; they are only delayed.
//!
//! The library decides and keeps the books. It reads no clock, runs no timer
//! and moves no bytes: the caller passes the time in, as nanoseconds on a
//! monotonic clock of its choice, reports what the inner stream did, and
//! arms a timer for each delay that it is handed. Limiters and streams that
//! share a budget have to be driven by the same clock.
//!
//! - [`limiter`]: the token bucket and its mathematical model.
//! - [`accounting`]: what holds of a bucket over sequences of transfers.
//! - [`pacing`]: the decisions of one direction, and its model.
//! - [`handle`]: a direction's limiter, the stream's own or a shared one.
//! - [`stream`]: the stream with its two directions.
//! - [`throughput`]: what holds of a direction over sequences of attempts.

pub mod accounting;
pub mod handle;
pub mod limiter;
pub mod pacing;
pub mod stream;
pub mod throughput;
