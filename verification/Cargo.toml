[package]
name = "ci_queue"
version = "0.1.0"
edition = "2021"
publish = false

[dependencies]
clap = { version = "4", features = ["derive", "env"] }
rand = "*"
redis = "*"
serde = { version = "1", features = ["derive"] }
serde_json = "1"
thiserror = "*"
uuid = { version = "1", features = ["v4"] }
which = "*"
