[package]
name = "iroh_socks5_proxy"
version = "0.1.0"
edition = "2021"
publish = false

[dependencies]
anyhow = "*"
chrono = "*"
clap = { version = "*", features = ["derive"] }
iroh = "*"
rand = "*"
tokio = { version = "*", features = ["full"] }

[dev-dependencies]
bincode = "1"
serde = "*"
