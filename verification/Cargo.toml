[package]
name = "gravital_talk"
version = "0.1.0"
edition = "2021"
publish = false

[dependencies]
ed25519-dalek = { version = "=2.2.0", features = ["rand_core"] }
rand_core = { version = "=0.6.4", features = ["getrandom"] }
anyhow = "=1.0.104"
async-trait = "=0.1.92"
audiopus = "=0.2.0"
bytes = "=1.12.1"
clap = { version = "=4.6.7", features = ["derive", "env"] }
cpal = "=0.15.3"
crossterm = "=0.27.0"
dashmap = "6"
futures-util = { version = "=0.3.34", features = ["sink"] }
hound = "=3.5.1"
http-body-util = "=0.1.5"
hyper = { version = "=1.12.0", features = ["server", "http1"] }
hyper-util = { version = "=0.1.21", features = ["tokio"] }
prometheus = { version = "=0.13.4", default-features = false }
rubato = "=0.15.0"
socket2 = { version = "=0.5.10", features = ["all"] }
thiserror = "=1.0.69"
tokio = { version = "=1.54.1", features = ["full"] }
tokio-tungstenite = "=0.21.0"
tracing = "=0.1.44"
tracing-subscriber = { version = "=0.3.23", features = ["env-filter"] }
