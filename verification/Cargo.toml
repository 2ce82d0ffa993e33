[package]
name = "event_api"
version = "0.1.0"
edition = "2021"
publish = false

[dependencies]
anyhow = "1"
aws-config = "1"
aws-sdk-dynamodb = "1"
axum = "0.7"
lambda_http = "*"
serde = { version = "1", features = ["derive"] }
serde_dynamo = { version = "4", features = ["aws-sdk-dynamodb+1"] }
serde_json = "1"
tokio = { version = "1", features = ["macros", "rt-multi-thread"] }
