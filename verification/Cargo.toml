[package]
name = "temporal_timezone"
version = "0.1.0"
edition = "2021"
publish = false

[dependencies]
ixdtf = "=0.6.7"
num-traits = "=0.2.19"
diplomat = "=0.12.0"
diplomat-runtime = "=0.12.0"
