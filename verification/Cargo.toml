[package]
name = "fxr_patcher"
version = "0.1.0"
edition = "2021"
publish = false

[dependencies]
base64 = "*"
pelite = "*"
serde = { version = "*", features = ["derive"] }
serde_json = "*"
thiserror = "*"
once_cell = "*"
tokio = { version = "*", features = ["rt-multi-thread", "net", "sync", "time", "macros"] }
tokio-tungstenite = "*"
futures-util = "*"
from-singleton = "*"
