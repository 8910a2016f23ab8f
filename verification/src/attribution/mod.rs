//! Attribution of each connection to the process that opened it, as reported by the
//! OpenSnitch daemon.

pub mod cache;
pub mod connection;
pub mod daemon_config;
pub mod desktop;
pub mod event;
pub mod subsystem;

pub use event::{AttributionEvent, FiveTuple, TupleView};
pub use subsystem::{AttributionServer, AttributionSubsystem, FakeAttributionServer, FakeAttributionSubsystem};
