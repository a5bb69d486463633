//! Verified core of a live log watcher: classifies appended log lines against
//! a small set of markers, tracks a short-lived round state machine, and
//! feeds a rate-limited FIFO dispatcher of datagram notifications.

use vstd::prelude::*;

pub mod bytes;
pub mod classifier;
pub mod dispatch;
pub mod files;
pub mod format;
pub mod osc;
pub mod round;
pub mod session;
pub mod supervisor;
pub mod tailer;

verus! {

/// Minimum gap between two dispatched notifications, in milliseconds.
pub const MIN_SEND_INTERVAL_MS: u64 = 500;

} // verus!
