[package]
name = "mqtt_ingest"
version = "0.1.0"
edition = "2021"
publish = false

[dependencies]
anyhow = "1"
bytes = "1"
dotenv = "*"
rumqttc = "*"
serde = { version = "1", features = ["derive"] }
serde_json = "1"
slugify = "*"
thiserror = "*"
tokio = { version = "1", features = ["macros", "rt"] }
tokio-postgres = "*"
toml = "*"
tracing = "*"
tracing-subscriber = { version = "*", features = ["env-filter"] }
