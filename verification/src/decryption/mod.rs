//! Active decryption through PolarProxy: the local CA, the redirection of web traffic and
//! the guards that keep the redirection from ever pointing at a dead proxy.

pub mod ca;
pub mod exclusions;
pub mod helper_backend;
pub mod output;
pub mod polarproxy;

pub use helper_backend::{FakeHelperBackend, HelperBackend};
pub use exclusions::{add_exclusion, list_exclusions, remove_exclusion};
pub use ca::FakeCaSubsystem;
pub use polarproxy::FakePolarProxySubsystem;
