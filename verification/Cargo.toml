[package]
name = "olm_wire"
version = "0.1.0"
edition = "2021"
publish = false

[dependencies]
ed25519-dalek = "*"
thiserror = "*"

[dev-dependencies]
prost = "*"
