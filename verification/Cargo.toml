[package]
name = "sqs_replayer_lambda"
version = "0.1.0"
edition = "2021"
publish = false

[dependencies]
aws-config = { version = "1", features = ["behavior-version-latest"] }
aws-sdk-sqs = "1"
aws-sdk-ssm = "1"
aws-smithy-types = "1"
aws_lambda_events = { version = "*", default-features = false, features = ["sqs"] }
lambda_runtime = "*"
serde = { version = "1", features = ["derive"] }
serde_json = "1"
tokio = { version = "1", features = ["macros", "rt-multi-thread", "sync"] }
tracing = "0.1"
