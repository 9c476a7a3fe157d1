[package]
name = "gatekeep"
version = "0.1.0"
edition = "2021"
publish = false

[dependencies]
async-trait = "*"
blake3 = "*"
postcard = { version = "*", features = ["alloc"] }
serde = { version = "*", features = ["derive"] }
serde_json = "*"
thiserror = "*"
time = { version = "*", features = ["serde", "macros"] }
uuid = { version = "*", features = ["v7"] }
