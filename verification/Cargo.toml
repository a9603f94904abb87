[package]
name = "snaprepl"
version = "0.1.0"
edition = "2021"
publish = false

[dependencies]
time = "0.2"
serde = { version = "1", features = ["derive"] }
serde_json = "1"
structopt = "0.3"
tracing = "0.1"
tracing-subscriber = { version = "0.3", features = ["env-filter"] }
