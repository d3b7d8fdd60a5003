[package]
name = "html_to_pdf_rust"
version = "0.1.0"
edition = "2021"
publish = false

[dependencies]
axum = "0.7"
chromiumoxide = { version = "0.7", features = ["tokio-runtime"], default-features = false }
chrono = "0.4"
dotenv = "0.15"
futures-util = "0.3"
regex = "1"
serde = { version = "1", features = ["derive"] }
serde_json = "1"
thiserror = "1"
tokio = { version = "1", features = ["full"] }
tower = "0.5"
tower-http = { version = "0.6", features = ["cors"] }
tracing = "0.1"
tracing-subscriber = { version = "0.3", features = ["env-filter"] }
url = "2"
