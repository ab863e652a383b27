[package]
name = "nadbridge"
version = "0.1.0"
edition = "2021"
publish = false

[dependencies]
futures-util = "0.3"
serde = { version = "1", features = ["derive"] }
serde_json = "1"
socket2 = { version = "0.6", features = ["all"] }
tokio = { version = "1", features = ["io-util", "macros", "net", "rt", "signal", "sync", "time"] }
zbus = { version = "5", default-features = false, features = ["tokio"] }
