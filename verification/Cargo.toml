[package]
name = "static_file_server"
version = "0.1.0"
edition = "2021"
publish = false

[dependencies]
axum = "0.6"
mime_guess = "2"
tokio = { version = "1", features = ["fs", "macros", "rt-multi-thread"] }
tower-http = { version = "0.4", features = ["fs", "trace"] }
tracing-subscriber = { version = "0.3", features = ["env-filter"] }
