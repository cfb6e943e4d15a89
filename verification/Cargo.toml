[package]
name = "profiling"
version = "0.1.0"
edition = "2021"
publish = false

[dependencies]
inferno = { version = "=0.12.8", default-features = false }
pprof = { version = "=0.15.0", default-features = false, features = ["flamegraph"] }
serde = { version = "*", features = ["derive"] }
tokio = { version = "*", features = ["rt-multi-thread", "macros"] }
tracing = "*"
tracing-subscriber = "*"
warp = "=0.3.7"
