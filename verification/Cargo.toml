[package]
name = "crate_library"
version = "0.1.0"
edition = "2021"
publish = false

[dependencies]
blake3 = "1"
uuid = { version = "1", features = ["v4"] }
lofty = "0.22"
rusqlite = { version = "*", features = ["bundled"] }
walkdir = "2"
symphonia = "0.5"
image = { version = "0.25", default-features = false, features = ["png", "jpeg", "webp"] }
stratum-dsp = "1"
sysinfo = "*"
tokio = { version = "1", features = ["rt-multi-thread", "sync", "time", "macros"] }
tokio-util = "0.7"
chrono = "0.4"
serde = { version = "1", features = ["derive"] }
log = "0.4"
