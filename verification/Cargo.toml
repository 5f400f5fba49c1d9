[package]
name = "soccer_server"
version = "0.1.0"
edition = "2021"
publish = false

[dependencies]
tokio = { version = "*", features = ["rt-multi-thread", "net", "sync", "time", "macros"] }
tokio-tungstenite = "*"
futures = "*"
url = "*"
num_cpus = "*"
sysinfo = "*"
