[package]
name = "vitrail"
version = "0.1.0"
edition = "2021"
publish = false

[dependencies]
serde = { version = "1", features = ["derive"] }
serde_json = "1"
sha2 = "0.10"
rcgen = "0.13"
thiserror = "2"
libc = "0.2"
