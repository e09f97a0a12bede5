[package]
name = "hitavada_crossword"
version = "0.1.0"
edition = "2021"
publish = false

[dependencies]
anyhow = "1"
aws-config = "1"
aws-sdk-ssm = "1"
chrono = "=0.4.45"
clap = { version = "4", features = ["derive"] }
dotenv = "0.15"
google-drive3 = "5"
hyper = { version = "0.14", features = ["client", "http1"] }
hyper-rustls = "0.25"
lambda_runtime = "0.13"
reqwest = { version = "=0.11.27", default-features = false, features = ["rustls-tls"] }
scraper = "=0.29.0"
serde = { version = "1", features = ["derive"] }
serde_json = "1"
tokio = { version = "1", features = ["macros", "rt-multi-thread"] }
tracing = "0.1"
tracing-subscriber = "0.3"
yup-oauth2 = "9"
