[package]
name = "escrow_market"
version = "0.1.0"
edition = "2021"
publish = false

[dependencies]
casper-contract = { version = "1", default-features = false }
casper-types = "1"
casper_types_derive = "*"
hex = "0.4"
