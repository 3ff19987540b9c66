[package]
name = "control_plane"
version = "0.1.0"
edition = "2021"
publish = false

[dependencies]
anyhow = "1"
async-trait = "0.1"
clap = { version = "4", default-features = false, features = ["std", "derive", "help", "usage", "error-context"] }
ethers = { version = "2", default-features = false, features = ["ws"] }
reqwest = { version = "0.11", default-features = false }
serde_json = "1"
ssh2 = "0.9"
tokio = { version = "1", features = ["full"] }
tokio-stream = "0.1"
web3 = { version = "0.19", default-features = false, features = ["http"] }
