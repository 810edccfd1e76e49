[package]
name = "reverse_tunnel"
version = "0.1.0"
edition = "2021"
publish = false

[dependencies]
axum = "0.8"
bytes = "1"
chrono = "0.4"
clap = { version = "4", features = ["derive"] }
http = "1"
httparse = "1"
log = "0.4"
log4rs = "1"
serde = { version = "1", features = ["derive"] }
socket2 = "0.5"
thiserror = "2"
tokio = { version = "1", features = ["full"] }
tracing = "0.1"
tracing-subscriber = "0.3"
