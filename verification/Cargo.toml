[package]
name = "io_thread_controller"
version = "0.1.0"
edition = "2021"
publish = false

[dependencies]
anyhow = "1"
async-trait = "0.1"
clap = { version = "4", features = ["derive", "env"] }
crossterm = "0.28"
futures-util = "0.3"
glob = "0.3"
lazy_static = "1"
linkme = "0.3"
procfs = "0.17"
ratatui = "0.29"
regex = "1"
serde = { version = "1", features = ["derive"] }
serde_json = "1"
thiserror = "2"
tokio = { version = "1", features = ["full"] }
tracing = "0.1"
tracing-subscriber = { version = "0.3", features = ["env-filter", "json"] }
zbus = { version = "5", default-features = false, features = ["tokio"] }
