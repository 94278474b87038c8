[package]
name = "imap_session"
version = "0.1.0"
edition = "2021"
publish = false

[dependencies]
chrono = { version = "=0.4.45", features = ["serde"] }
async-imap = { version = "=0.10.4", default-features = false, features = ["runtime-tokio"] }
async-native-tls = { version = "=0.5.0", default-features = false, features = ["runtime-tokio"] }
tokio = { version = "=1.54.1", features = ["net", "rt", "macros"] }
deadpool = { version = "=0.12.3", features = ["managed"] }
futures-util = "=0.3.34"
serde = { version = "=1.0.229", features = ["derive", "rc"] }
serde_with = { version = "=3.24.0", default-features = false, features = ["macros"] }
thiserror = "=2.0.21"
tracing = "=0.1.44"
