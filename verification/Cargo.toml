[package]
name = "stakker_async_await"
version = "0.1.0"
edition = "2021"
publish = false

[dependencies]
stakker = { version = "=0.2.16", features = ["multi-thread"] }
futures-core = "=0.3.34"
