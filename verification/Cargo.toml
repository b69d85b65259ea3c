[package]
name = "slumber"
version = "0.1.0"
edition = "2021"
publish = false

[dependencies]
anyhow = "=1.0.104"
async-trait = "=0.1.92"
clap = { version = "=4.6.7", features = ["derive"] }
derive_more = { version = "=2.1.1", features = ["display", "from"] }
dialoguer = { version = "=0.12.0", default-features = false, features = ["password"] }
indexmap = "=2.14.2"
itertools = "=0.15.0"
ratatui = "=0.30.2"
regex-syntax = { version = "=0.8.11", default-features = false, features = ["std", "unicode-perl"] }
reqwest = { version = "=0.13.5", default-features = false }
serde = { version = "=1.0.229", features = ["derive"] }
serde_json = "=1.0.154"
serde_json_path = "=0.7.2"
thiserror = "=2.0.21"
tokio = { version = "=1.54.1", features = ["rt", "macros"] }
tracing = "=0.1.44"
tracing-subscriber = { version = "=0.3.23", features = ["env-filter"] }
