[package]
name = "dlna_cast"
version = "0.1.0"
edition = "2021"
publish = false

[dependencies]
anyhow = "=1.0.104"
futures-util = "=0.3.34"
log = "=0.4.34"
pin-utils = "=0.1.1"
rupnp = { version = "=3.0.0", features = ["full_device_spec"] }
ssdp-client = "=2.1.0"
tokio = { version = "=1.54.1", features = ["rt-multi-thread", "time"] }
