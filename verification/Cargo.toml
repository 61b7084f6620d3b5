[package]
name = "marshal"
version = "0.1.0"
edition = "2021"
publish = false

[dependencies]
bytes = "=1.12.1"
commonware-broadcast = "=0.0.62"
commonware-codec = "=0.0.62"
commonware-coding = "=0.0.62"
commonware-cryptography = "=0.0.62"
commonware-p2p = "=0.0.62"
commonware-runtime = "=0.0.62"
commonware-storage = "=0.0.62"
futures = "=0.3.34"
rand = "=0.8.8"
thiserror = "2"
tracing = "0.1"
