//! Raw network capture: what the capture helper reports of each packet, and its journal.

pub mod events;
pub mod subsystem;

pub use events::CapturedPacket;
pub use subsystem::FakeCaptureSubsystem;
