[package]
name = "beacon_glass"
version = "0.1.0"
edition = "2021"
publish = false

[dependencies]
oklab = "1"
