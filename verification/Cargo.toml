[package]
name = "rpdl"
version = "0.1.0"
edition = "2021"
publish = false

[dependencies]
chrono = { version = "=0.4.45", default-features = false, features = ["std", "clock", "serde"] }
regex = "=1.13.1"
serde = { version = "=1.0.229", features = ["derive"] }
serde_json = "=1.0.154"
tokio = { version = "=1.54.1", features = ["fs", "rt-multi-thread", "macros", "sync", "time", "signal", "io-util"] }
reqwest = { version = "=0.12.28", default-features = false, features = ["http2"] }
futures = "=0.3.34"
bytes = "=1.12.1"
indicatif = "=0.18.6"
colored = "=3.1.1"
clap = { version = "=4.6.7", features = ["derive", "env"] }
clap_complete = "=4.6.11"
clap-markdown = "=0.1.5"
color-eyre = { version = "=0.6.5", default-features = false }
thiserror = "=2.0.21"
dirs = "=7.0.0"
flate2 = "=1.1.10"
tar = "=0.4.46"
zip = { version = "=9.2.2", default-features = false, features = ["deflate"] }
async-trait = "=0.1.92"
octocrab = "=0.47.1"
librqbit = { version = "=8.1.1", default-features = false, features = ["rust-tls"] }
