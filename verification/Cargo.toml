[package]
name = "dusk-abi"
version = "0.1.0"
edition = "2021"
publish = false

[dependencies]
canonical = "=0.6.6"
canonical_derive = "=0.6.0"
cfg-if = "1"
fermion = "0.2"
serde = { version = "1", features = ["derive"] }
wee_alloc = "0.4"
