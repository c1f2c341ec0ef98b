[package]
name = "wiki_rt_monitor"
version = "0.1.0"
edition = "2021"
publish = false

[dependencies]
bytes = "1"
crossbeam = "0.8"
futures = "0.3"
parking_lot = "0.12"
pid = "4"
rand = "0.8"
reqwest = { version = "0.12", default-features = false, features = ["stream", "rustls-tls"] }
serde = { version = "1", features = ["derive"] }
serde_json = "1"
spin_sleep = "1"
thread-priority = "1"
tokio = { version = "1", features = ["rt-multi-thread", "macros", "sync", "time"] }
