[package]
name = "session_relay"
version = "0.1.0"
edition = "2021"
publish = false

[dependencies]
random-string = "=1.1.0"
serde_json = "=1.0.154"
uuid = { version = "=1.29.0", features = ["v4"] }
serde = { version = "=1.0.229", features = ["derive"] }
socketioxide = { version = "=0.18.7", features = ["extensions", "state"] }
bytes = { version = "=1.12.1", features = ["serde"] }
futures = "=0.3.34"
tokio = { version = "=1.54.1", features = ["macros", "rt-multi-thread", "net", "time"] }
axum = "=0.8.9"
tower = "=0.5.3"
tower-http = { version = "=0.7.1", features = ["cors", "fs"] }
tracing = "=0.1.44"
tracing-subscriber = "=0.3.23"
tracing-appender = "=0.2.5"
