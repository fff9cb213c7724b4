[package]
name = "mars_rover"
version = "0.1.0"
edition = "2021"
publish = false

[dependencies]
cosmwasm-std = "1"
cosmwasm-schema = "1"
cw-storage-plus = "1"
cw-utils = "1"
cw2 = "1"
cw-asset = "2.4"
thiserror = "1"
serde = { version = "1", features = ["derive"] }
schemars = "0.8"
mars-owner = "1.2"
wasm-bindgen = "0.2"
