[package]
name = "yuuki_core"
version = "0.1.0"
edition = "2021"

[dependencies]
rand = "*"
uuid = { version = "*", features = ["v4"] }
directories = "*"
once_cell = "*"
serde = { version = "*", features = ["derive"] }
serde_yaml = "*"
thiserror = "*"
tracing = "*"
tracing-subscriber = { version = "*", features = ["env-filter"] }
