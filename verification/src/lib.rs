//! Vitrail: a local, reversible view of a Linux machine's network traffic.

pub mod attribution;
pub mod capture;
pub mod clock;
pub mod commands;
pub mod correlation;
pub mod decryption;
pub mod json;
pub mod keylog;
pub mod killswitch;
pub mod paths;
pub mod shared;
pub mod storage;
pub mod text;
