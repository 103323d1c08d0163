[package]
name = "jtag_adi"
version = "0.1.0"
edition = "2021"
publish = false

[dependencies]
jtag-taps = "*"
