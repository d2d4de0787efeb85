[package]
name = "what-the-async"
version = "0.1.0"
edition = "2021"
publish = false

[dependencies]
crossbeam-deque = "0.8"
futures = "0.3"
futures-util = "0.3"
hyper = { version = "0.14", features = ["server", "http1"] }
loom = "0.5"
mio = { version = "0.8", features = ["os-poll", "net"] }
sharded-slab = "0.1"
tokio = { version = "1", features = ["sync"] }
