[package]
name = "novels"
version = "0.1.0"
edition = "2021"
publish = false

[dependencies]
uuid = { version = "=1.29.0", features = ["v4"] }
chrono = "=0.4.45"
serde = { version = "=1.0.229", features = ["derive"] }
serde_json = "=1.0.154"
schemars = "=1.2.3"
clap = { version = "=4.6.7", features = ["derive"] }
tokio = { version = "=1.54.1", features = ["macros", "rt-multi-thread"] }
sqlx = { version = "=0.9.0", default-features = false, features = ["runtime-tokio", "sqlite", "migrate"] }
axum = "=0.8.9"
tower-http = { version = "=0.6.11", features = ["fs", "set-header"] }
rig-core = "=0.37.0"
dotenv = "=0.15.0"
anyhow = "=1.0.104"
async-trait = "=0.1.92"
thiserror = "=2.0.21"
