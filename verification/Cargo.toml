[package]
name = "evno"
version = "1.0.0"
edition = "2021"
publish = false

[dependencies]
acty = "*"
async-stream = "*"
crossbeam-utils = "*"
futures = "*"
gyre = "*"
papaya = "*"
tokio = { version = "1", features = ["full"] }
tokio-util = "*"
trait-variant = "*"
