[package]
name = "playground"
version = "0.1.0"
edition = "2021"
publish = false

[dependencies]
axum = "*"
serde = { version = "*", features = ["derive"] }
thiserror = "*"
tokio = { version = "*", features = ["macros", "net", "process", "rt-multi-thread", "sync", "time"] }
tower-http = { version = "*", features = ["cors"] }
