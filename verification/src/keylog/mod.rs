//! Decryption by the applications' own session keys (SSLKEYLOGFILE) and tshark.

pub mod desktop_store;
pub mod detection;
pub mod fragment;
pub mod injection;
pub mod parser;
pub mod subsystem;
pub mod tshark;

pub use fragment::DecryptedFragment;
pub use detection::TsharkAvailability;
pub use injection::{restore_app_injection, InjectionOutcome};
pub use parser::parse_ek_line;
pub use subsystem::FakeKeylogSubsystem;
pub use tshark::{FakeTsharkBackend, SpawnedTshark, TsharkBackend, TsharkHandle, TsharkReader};
