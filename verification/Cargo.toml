[package]
name = "casperfpga"
version = "0.1.0"
edition = "2021"
publish = false

[dependencies]
md5 = "=0.8.1"
flate2 = "=1.1.10"
