[package]
name = "tvdata_rs"
version = "0.1.0"
edition = "2021"
publish = false

[dependencies]
url = "2"
bon = "3"
futures-util = "0.3"
reqwest = { version = "0.12", default-features = false, features = ["json"] }
reqwest-middleware = "0.4"
reqwest-retry = "0.7"
serde = { version = "1", features = ["derive"] }
serde_json = "1"
thiserror = "2"
time = { version = "0.3", features = ["formatting"] }
tokio = { version = "1", features = ["macros", "rt-multi-thread", "sync", "net", "time"] }
tokio-tungstenite = "0.26"
