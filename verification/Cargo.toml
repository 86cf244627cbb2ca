[package]
name = "presguel"
version = "0.1.0"
edition = "2021"
publish = false

[dependencies]
quick-xml = "0.37"
thiserror = "2"
tokio = { version = "1", features = ["rt-multi-thread", "macros", "signal"] }
zbus = { version = "5", default-features = false, features = ["tokio"] }
