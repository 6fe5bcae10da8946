[package]
name = "lobby_server"
version = "0.1.0"
edition = "2021"
publish = false

[dependencies]
axum = { version = "0.6", features = ["ws"] }
color-eyre = "0.6"
derivative = "2"
futures = "0.3"
log = "0.4"
rand = "0.8"
scc = "2"
serde = { version = "1", features = ["derive"] }
serde_json = "1"
shuttle-axum = "0.30"
shuttle-runtime = "0.30"
tokio = { version = "1", features = ["sync", "rt"] }
tokio-stream = "0.1"
tower-http = { version = "0.4", features = ["fs"] }
