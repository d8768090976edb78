[package]
name = "zoo_core"
version = "0.1.0"
edition = "2021"
publish = false

[dependencies]
axum = "0.8"
chrono = { version = "0.4", default-features = false, features = ["std"] }
dotenv = "0.15"
serde = { version = "1", features = ["derive"] }
tiberius = { version = "0.12", default-features = false, features = ["tds73", "rustls", "chrono"] }
tokio = { version = "1", features = ["full"] }
tokio-util = { version = "0.7", features = ["compat"] }
tower-http = { version = "0.6", features = ["cors"] }
