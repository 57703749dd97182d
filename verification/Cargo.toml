[package]
name = "fwumious_wabbit"
version = "0.1.0"
edition = "2021"
publish = false

[dependencies]
byteorder = "1"
regex = "1"
fasthash = "0.4"
flate2 = "1"
crossbeam = "0.8"
shellwords = "1"
serde = { version = "1", features = ["derive"] }
