[package]
name = "uniswap_v3_pool"
version = "0.1.0"
edition = "2021"
publish = false

[dependencies]
ethers = { version = "=2.0.14", default-features = false }
uniswap_v3_math = "=0.4.1"
ruint = "=1.12.3"
serde = { version = "1", features = ["derive"] }
num-bigfloat = { version = "1", default-features = false }
