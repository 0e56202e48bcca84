[package]
name = "httptrace"
version = "0.1.0"
edition = "2021"
publish = false

[dependencies]
httparse = "=1.10.1"
clap = { version = "=4.6.7", features = ["derive"] }
ctrlc = "=3.5.2"
env_logger = "=0.11.11"
log = "=0.4.34"
thiserror = "=1.0.69"
