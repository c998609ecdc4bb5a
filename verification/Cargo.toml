[package]
name = "leaderboard_lambda"
version = "0.1.0"
edition = "2021"
publish = false

[dependencies]
serde = { version = "*", features = ["derive"] }
serde_json = "*"
aws-config = "*"
aws-sdk-dynamodb = "*"
lambda_http = "*"
tokio = { version = "*", features = ["macros", "rt-multi-thread"] }
