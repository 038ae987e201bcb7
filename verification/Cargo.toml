[package]
name = "netmonitor"
version = "0.1.0"
edition = "2021"
publish = false

[dependencies]
actix-web = "4"
colored = "2"
ipnetwork = "0.20"
rand = "0.8"
serde = { version = "1", features = ["derive"] }
serde_yaml = "0.9"
sysinfo = "0.30"
