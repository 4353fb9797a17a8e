[package]
name = "ipdis"
version = "0.1.0"
edition = "2021"
publish = false

[dependencies]
clap = { version = "4", features = ["derive"] }
color-eyre = "0.6"
crossbeam = "0.8"
gethostname = "*"
serde_json = "1"
tracing = "0.1"
tracing-appender = "0.2"
tracing-error = "0.2"
tracing-journald = "0.3"
tracing-subscriber = { version = "0.3", features = ["env-filter"] }
