[package]
name = "multipush"
version = "0.4.0"
edition = "2021"
publish = false

[dependencies]
async-trait = "=0.1.92"
clap = { version = "=4.6.7", features = ["derive"] }
futures = "=0.3.34"
globset = "=0.4.21"
home = "=0.5.12"
octocrab = "=0.44.1"
owo-colors = "=4.4.0"
regex = "=1.13.1"
serde = { version = "=1.0.229", features = ["derive"] }
serde_json = { version = "=1.0.154", features = ["preserve_order"] }
serde_yaml_ng = "=0.10.0"
tabled = { version = "=0.22.0", features = ["ansi"] }
tokio = { version = "=1.54.1", features = ["rt-multi-thread", "macros"] }
tracing = "=0.1.44"
tracing-subscriber = { version = "=0.3.23", features = ["env-filter"] }
