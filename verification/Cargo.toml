[package]
name = "line_chat_bot"
version = "0.1.0"
edition = "2021"
publish = false

[dependencies]
hmac = "=0.12.1"
sha2 = "=0.10.9"
serde_json = "=1.0.154"
serde = { version = "=1.0.229", features = ["derive"] }
serde_derive = "=1.0.229"
actix-web = "=4.18.1"
reqwest = { version = "=0.11.27", features = ["json"] }
log = "=0.4.34"
pretty_env_logger = "=0.5.0"
rand = "=0.8.8"
tracing = "=0.1.44"
tracing-attributes = "=0.1.31"
tracing-actix-web = "=0.7.25"
tracing-subscriber = "=0.3.23"
opentelemetry = "=0.21.0"
opentelemetry_sdk = { version = "=0.21.2", features = ["rt-tokio", "metrics"] }
opentelemetry-application-insights = { version = "=0.29.0", features = ["live-metrics", "metrics", "reqwest-client"] }
actix-web-opentelemetry = "=0.16.0"
