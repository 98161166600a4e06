[package]
name = "warg_core"
version = "0.1.0"
edition = "2021"
publish = false

[dependencies]
sha2 = "*"
anyhow = "*"
tokio = { version = "*", features = ["rt-multi-thread", "sync", "macros"] }
axum = "*"
clap = { version = "*", features = ["derive"] }
reqwest = { version = "*", default-features = false }
tracing = "*"
tracing-subscriber = { version = "*", features = ["env-filter"] }
