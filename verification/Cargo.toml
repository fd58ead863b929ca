[package]
name = "capnp_serde"
version = "0.1.0"
edition = "2021"
publish = false

[dependencies]
once_map = "*"
capnp = "*"
serde = "*"
serde_bytes = "*"

[dev-dependencies]
serde_json = "*"
