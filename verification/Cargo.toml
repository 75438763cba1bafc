[package]
name = "funke"
version = "0.1.0"
edition = "2021"
publish = false

[dependencies]
crossterm = "=0.29.0"
futures-util = "=0.3.34"
ratatui = "=0.30.2"
tokio = { version = "=1.54.1", features = ["full"] }
zbus = { version = "=5.19.0", default-features = false, features = ["tokio"] }
