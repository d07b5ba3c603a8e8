[package]
name = "announcements"
version = "0.1.0"
edition = "2021"
publish = false

[dependencies]
axum = { version = "=0.8.9", default-features = false, features = ["json", "query"] }
clap = { version = "=4.6.7", features = ["derive"] }
futures = "=0.3.34"
ruma = { version = "=0.14.1", features = ["client-api", "events", "markdown", "rand"] }
serde = { version = "=1.0.229", features = ["derive"] }
serde_json = "=1.0.154"
tokio = { version = "=1.54.1", features = ["fs", "sync"] }
