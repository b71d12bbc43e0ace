[package]
name = "notification"
version = "0.1.0"
edition = "2021"
publish = false

[dependencies]
time = "*"
tokio = { version = "*", features = ["macros", "rt-multi-thread"] }
tonic = "*"
madtofan-microservice-common = "*"
clap = { version = "*", features = ["derive", "env"] }
dotenv = "*"
tracing = "*"
tracing-subscriber = { version = "*", features = ["env-filter"] }
