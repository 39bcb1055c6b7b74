[package]
name = "openai_proxy"
version = "0.1.0"
edition = "2021"
publish = false

[dependencies]
serde_json = { version = "1", features = ["preserve_order"] }
serde = { version = "1", features = ["derive"] }
axum = "*"
tokio = { version = "1", features = ["rt-multi-thread", "macros", "net"] }
reqwest = { version = "*", default-features = false, features = ["rustls-tls"] }
config = { version = "*", default-features = false, features = ["toml"] }
dotenv = "*"
tower-http = { version = "*", features = ["cors"] }
