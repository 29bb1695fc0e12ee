[package]
name = "lite_llm"
version = "0.1.0"
edition = "2021"
publish = false

[dependencies]
anyhow = "1"
axum = "0.8"
chrono = "0.4"
clap = { version = "4", features = ["derive"] }
encoding_rs = "0.8"
hf-hub = "0.4"
llama-cpp-2 = "*"
minijinja = "2"
once_cell = "1"
reqwest = { version = "0.12", default-features = false, features = ["rustls-tls", "stream"] }
rumqttc = "0.24"
serde = { version = "1", features = ["derive"] }
serde_json = "1"
shellexpand = "3"
sqlx = { version = "0.8", default-features = false, features = ["runtime-tokio", "sqlite", "migrate", "macros"] }
tokio = { version = "1", features = ["full"] }
tokio-stream = "0.1"
toml = "0.8"
tracing = "0.1"
tracing-subscriber = { version = "0.3", features = ["env-filter"] }
uuid = { version = "1", features = ["v4"] }
