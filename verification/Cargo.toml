[package]
name = "rate_limited_stream"
version = "0.1.0"
edition = "2021"
publish = false

[dependencies]
futures = { version = "=0.3.34", default-features = false }
tokio = { version = "=1.54.1", default-features = false, features = ["time"] }

[dev-dependencies]
tokio = { version = "=1.54.1", default-features = false, features = ["rt", "time"] }
