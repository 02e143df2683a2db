[package]
name = "hls_fetch"
version = "0.1.0"
edition = "2021"
publish = false

[dependencies]
m3u8-rs = "=2.1.0"
url = "=2.5.8"
anyhow = "=1.0.104"
futures = "=0.3.34"
once_cell = "=1.21.4"
reqwest = "=0.13.5"
tokio = { version = "=1.54.1", features = ["fs", "io-util", "macros", "rt-multi-thread", "sync"] }
