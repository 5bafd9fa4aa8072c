[package]
name = "responses_chat"
version = "0.1.0"
edition = "2021"
publish = false

[dependencies]
serde_json = "1"
bytes = "1"
futures = "0.3"
async-stream = "0.3"
tokio = { version = "1", features = ["macros", "rt"] }
