[package]
name = "orchestrator"
version = "0.1.0"
edition = "2021"
publish = false

[dependencies]
async-trait = "0.1"
aws-sdk-s3 = "1"
bytes = "1"
color-eyre = "0.6"
futures = "0.3"
log = "0.4"
mongodb = "2"
serde = { version = "1", features = ["derive"] }
serde_json = "1"
url = "2"
uuid = { version = "1", features = ["v4", "serde"] }
