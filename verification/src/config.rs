//! Timing constants of the gateway, all in milliseconds.

use vstd::prelude::*;

verus! {

/// How long a long-polling read waits for a first frame.
pub const KEEP_ALIVE: u64 = 20_000;

/// The longest dwell that a read may ask for through `batch_ms`.
pub const MAX_BATCH_DURATION: u64 = 5_000;

/// How long a connection is kept without any upstream frame.
pub const CONNECTION_TIMEOUT: u64 = 55_000;

/// How long a connection is kept without any read request.
pub const CONNECTION_POLL_TIMEOUT: u64 = 30_000;

/// How long a closed connection stays registered, so that its closing frame
/// can still be read.
pub const CLOSED_CONNECTION_EXPIRY: u64 = 15_000;

/// The period of the driver's heartbeat.
pub const HEARTBEAT_PERIOD: u64 = 1_000;

/// How many commands may wait between the request handlers and a driver.
pub const OUTBOUND_CAPACITY: usize = 64;

} // verus!
