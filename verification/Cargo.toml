[package]
name = "fim"
version = "0.1.0"
edition = "2021"
publish = false

[dependencies]
bon = "3"
crossterm = "0.28"
thiserror = "1"
tokio = { version = "1", features = ["fs", "io-std", "io-util", "macros", "rt-multi-thread", "time"] }
tracing = "0.1"
tracing-subscriber = "0.3"
