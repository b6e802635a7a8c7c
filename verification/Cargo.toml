[package]
name = "ceolmund"
version = "0.1.0"
edition = "2021"
publish = false

[dependencies]
crc64 = "=2.0.0"
noise = "=0.9.0"
num-traits = "=0.2.19"
rand = "=0.10.3"
unicode-segmentation = "=1.13.3"
tokio = { version = "=1.53.2", features = ["rt-multi-thread"] }
futures = "=0.3.34"
noop-waker = "=0.1.0"
home = "=0.5.12"
