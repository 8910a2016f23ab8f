//! What the user interface asks of the library, as plain functions.

pub mod alerts;
pub mod log_entries;
pub mod mock_flows;
pub mod search;
