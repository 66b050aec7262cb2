[package]
name = "rp_pio"
version = "0.1.0"
edition = "2021"
publish = false

[dependencies]
critical-section = "=1.2.0"
embassy-hal-internal = { version = "0.1", features = ["cortex-m", "prio-bits-2"] }
embassy-sync = "0.2"
rp-pac = "1"
