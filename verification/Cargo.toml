[package]
name = "channel_bench"
version = "0.1.0"
edition = "2021"
publish = false

[dependencies]
anyhow = "1"
async-channel = "1"
criterion = "0.3"
csv = "1"
event-listener = "2"
flume = "0.10"
futures-lite = "1"
