[package]
name = "yrp3d"
version = "0.1.0"
edition = "2021"
publish = false

[dependencies]
anyhow = "=1.0.104"
binrw = "=0.13.4"
futures = "=0.3.34"
lzma-rs = "=0.3.0"
tokio = { version = "=1.54.1", features = ["macros", "rt", "rt-multi-thread", "sync", "time"] }
tokio-stream = "=0.1.19"
ygopro = "=0.1.10"
ygopro-core-wrapper = "=0.1.5"
ygopro-data = "=0.1.5"
ygopro-handler = "=0.1.3"
