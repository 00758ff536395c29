[package]
name = "retry_block"
version = "1.0.0"
edition = "2021"
publish = false

[dependencies]
rand = "0.8"
serde = { version = "1", features = ["derive"] }
tokio = { version = "1", features = ["time", "sync"] }
futures-util = "0.3"
tokio-stream = "0.1"
async-trait = "0.1"

[dev-dependencies]
rand_xorshift = "0.3"
