[package]
name = "rust_web_dev"
version = "0.1.0"
edition = "2021"
publish = false

[dependencies]
tokio = { version = "=1.53.2", features = ["macros", "rt-multi-thread"] }
warp = "=0.3.7"
serde = { version = "=1.0.229", features = ["derive"] }
sqlx = { version = "=0.7.4", default-features = false, features = ["runtime-tokio-rustls", "postgres"] }
reqwest = { version = "=0.11.27", default-features = false, features = ["rustls-tls", "json"] }
reqwest-middleware = "=0.2.5"
tracing = "=0.1.44"
tracing-subscriber = { version = "=0.3.23", features = ["env-filter"] }
dotenv = "=0.15.0"
chrono = { version = "=0.4.45", features = ["serde"] }
