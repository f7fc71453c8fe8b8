[package]
name = "pg_stats_exporter"
version = "0.1.0"
edition = "2021"
publish = false

[dependencies]
anyhow = "1"
bytes = "1"
clap = "4"
const_format = "0.2"
git-version = "0.3"
hyper = { version = "0.14", features = ["server", "http1", "tcp", "stream", "runtime"] }
postgres = "0.19"
prometheus = "0.13"
routerify = "3"
serde = { version = "1", features = ["derive"] }
serde_json = "1"
thiserror = "1"
tokio = { version = "1", features = ["rt", "rt-multi-thread", "sync", "signal", "net", "time"] }
tokio-stream = "0.1"
tracing = "0.1"
