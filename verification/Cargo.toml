[package]
name = "common"
version = "0.1.0"
edition = "2021"
publish = false

[dependencies]
bson = "2"
chrono = "0.4"
rand = "0.8"
rusty_paseto = "0.7"
serde = { version = "1", features = ["derive"] }
serde_json = "1"
thiserror = "1"
aws-config = "1"
aws-sdk-dynamodb = "1"
aws-sdk-sqs = "1"
aws_lambda_events = { version = "0.15", default-features = false, features = ["sqs"] }
axum = { version = "0.7", features = ["macros"] }
lambda_http = "0.13"
lambda_runtime = "0.13"
reqwest = { version = "0.12", default-features = false, features = ["json", "rustls-tls"] }
futures = "0.3"
tokio = { version = "1", features = ["macros", "rt-multi-thread"] }
tracing = "0.1"
tracing-subscriber = "0.3"
