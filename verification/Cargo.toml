[package]
name = "protocol"
version = "0.1.0"
edition = "2021"
publish = false

[dependencies]
byteorder = "1.5"
rand = "0.9"
crossbeam = "0.8"
parking_lot = "0.12"
log = "0.4"
