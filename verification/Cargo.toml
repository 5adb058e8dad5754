[package]
name = "rsedsim"
version = "0.1.0"
edition = "2021"
publish = false

[dependencies]
petgraph = "=0.6.5"
serde = { version = "=1.0.229", features = ["derive"] }
serde_json = "=1.0.154"
serde_yaml = "=0.9.34"
clap = { version = "=4.6.7", features = ["derive"] }
colored = "=2.2.0"
rand = "=0.8.8"
rand_distr = "=0.4.3"
quick-xml = "=0.31.0"
nalgebra = "=0.32.6"
rayon = "=1.12.0"
tokio = { version = "=1.54.1", features = ["full"] }
axum = { version = "=0.8.9", features = ["ws", "multipart"] }
tower-http = { version = "=0.6.11", features = ["cors", "trace"] }
futures = "=0.3.34"
uuid = { version = "=1.29.0", features = ["v4"] }
chrono = "=0.4.45"
async-trait = "=0.1.92"
tracing = "=0.1.44"
tracing-subscriber = { version = "=0.3.23", features = ["env-filter"] }
