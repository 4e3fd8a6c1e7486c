[package]
name = "statement_distribution"
version = "0.1.0"
edition = "2021"
publish = false

[dependencies]
arrayvec = "=0.7.8"
parity-scale-codec = { version = "=3.7.5", features = ["derive"] }
futures = "=0.3.34"
indexmap = "=2.14.2"
polkadot-node-primitives = "=19.1.0"
polkadot-primitives = "=18.2.0"
rand = "=0.8.8"

[dev-dependencies]
sp-core = "=36.1.0"
