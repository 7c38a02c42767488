[package]
name = "outlet"
version = "0.5.0"
edition = "2021"
publish = false

[dependencies]
axum = "0.8"
bytes = "1"
futures = "0.3"
http-body-util = "0.1"
metrics = "0.24"
opentelemetry = "0.30"
thiserror = "2"
tokio = { version = "1", features = ["rt-multi-thread", "macros", "sync", "time", "net"] }
tower = "0.5"
tracing = "0.1"
tracing-opentelemetry = "0.31"
