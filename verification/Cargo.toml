[package]
name = "p9cpu"
version = "0.1.0"
edition = "2021"
publish = false

[dependencies]
anyhow = "1"
byteorder = "1"
clap = { version = "4", features = ["derive"] }
env_logger = "0.10"
filetime = "0.2"
futures = "0.3"
libc = "0.2"
log = "0.4"
nix = "0.26"
prost = "0.11"
thiserror = "1"
tokio = { version = "1", features = ["full"] }
tokio-stream = "0.1"
uuid = { version = "1", features = ["v4"] }
