[package]
name = "namada_ledger"
version = "0.1.0"
edition = "2021"
publish = false

[dependencies]
clarity = "=0.5.4"
ethabi = { version = "=18.0.0", default-features = false, features = ["std"] }
ethbridge-events = "=0.24.1"
num256 = "=0.3.5"
thiserror = "=1.0.69"
tokio = { version = "=1.54.1", default-features = false, features = ["rt", "sync", "time", "macros"] }
tracing = "=0.1.44"
# Not used directly: `ethbridge-events` needs it, and later versions bring in the ICU crates.
url = "=2.5.2"

[dev-dependencies]
borsh = { version = "=1.8.1", default-features = false, features = ["std"] }
