[package]
name = "plot_planner"
version = "0.1.0"
edition = "2021"
publish = false

[dependencies]
anyhow = "=1.0.104"
axum = { version = "=0.8.9", features = ["multipart", "ws"] }
base64 = "=0.23.1"
futures-util = "=0.3.34"
image = "=0.25.10"
nalgebra = "=0.35.0"
rand = "=0.9.5"
rand_xoshiro = "=0.8.1"
rayon = "=1.12.0"
serde = { version = "=1.0.229", features = ["derive"] }
serde_json = "=1.0.151"
tokio = { version = "=1.53.2", features = ["full"] }
tower-http = { version = "=0.7.1", features = ["cors", "fs"] }
tracing = "=0.1.44"
tracing-subscriber = { version = "=0.3.23", features = ["env-filter"] }
