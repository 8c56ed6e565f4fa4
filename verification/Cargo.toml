[package]
name = "asyncos"
version = "0.1.0"
edition = "2021"
publish = false

[dependencies]
scraper = "0.20"
reqwest = { version = "0.12", default-features = false, features = ["blocking", "rustls-tls"] }
tokio = { version = "1", features = ["rt-multi-thread", "fs", "sync", "time", "io-util"] }
sysinfo = "0.30"
