[package]
name = "tx_pipeline"
version = "0.1.0"
edition = "2021"
publish = false

[dependencies]
flume = "0.11"
ringbuffer-spsc = "0.1.9"
tokio = { version = "1", default-features = false, features = ["rt", "rt-multi-thread", "time", "sync"] }
tracing = "0.1"
zenoh-buffers = "0.11"
zenoh-codec = "0.11"
zenoh-config = "0.11"
zenoh-core = "0.11"
zenoh-protocol = "0.11"
