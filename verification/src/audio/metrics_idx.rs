//! The well-known fields of the engine's metrics.

use vstd::prelude::*;

verus! {

pub const PROCESS_COUNT: usize = 0;

pub const MESSAGES_PROCESSED: usize = 1;

pub const SCHEDULER_QUEUE_DEPTH: usize = 3;

pub const LINK_PEERS: usize = 27;

/// Tempo in thousandths of a beat per minute.
pub const LINK_TEMPO_MBPM: usize = 28;

pub const LINK_PLAYING: usize = 31;

} // verus!
