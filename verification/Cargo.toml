[package]
name = "polkadot_network"
version = "0.1.0"
edition = "2021"
publish = false

[dependencies]
futures = "0.1.31"
log = "0.4"
parity-codec = "1.1.1"
parking_lot = "0.12"
