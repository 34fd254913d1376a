[package]
name = "netcode"
version = "0.1.0"
edition = "2021"

[dependencies]
bytes = "1"
log = "0.4"
