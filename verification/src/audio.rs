//! The engine's audio as the front end sees it: shared-memory geometry, the audio
//! ring, the scope slots, and the spectrum's bookkeeping.

pub mod layout;
pub mod metrics_idx;
pub mod processor;
pub mod ring;
pub mod segment;
pub mod spectrum;

pub use self::processor::AudioProcessor;
pub use self::ring::{ScopeReader, ScopeWriter};
pub use self::segment::{MetricsReader, ScopeSlotReader};
