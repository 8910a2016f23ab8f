//! Correlation: the fragments that capture, attribution and decryption report of one
//! connection meet under its 5-tuple and become one flow of the timeline.

pub mod builder;
pub mod channel;
pub mod engine;
pub mod event;
pub mod update;
pub mod visibility;

pub use builder::{build_flow, PendingFlow};
pub use visibility::determine_visibility;
pub use event::CorrelationEvent;
pub use channel::{channel, CorrelationSender};
pub use update::try_enrich_already_emitted;
pub use engine::{ingest, ingest_at, sweep_expired, sweep_expired_at, CorrelationBuffer, CORRELATION_WINDOW_MS};
