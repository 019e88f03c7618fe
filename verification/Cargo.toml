[package]
name = "app_frame"
version = "0.2.1"
edition = "2021"
publish = false

[dependencies]
anyhow = "=1.0.104"
async-trait = "=0.1.92"
futures = "=0.3.34"
hyper = { version = "=0.14.32", features = ["server", "http1", "tcp"] }
log = "=0.4.35"
ordered-float = "=3.9.2"
parking_lot = { version = "=0.12.5", features = ["send_guard"] }
priority-queue = "=1.4.0"
regex = "=1.13.1"
tokio = { version = "=1.54.1", features = ["rt", "time"] }
tracing = { version = "=0.1.44", features = ["log"] }
