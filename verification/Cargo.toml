[package]
name = "transit_index"
version = "0.1.0"
edition = "2021"
publish = false

[dependencies]
urlencoding = "*"
sha2 = "*"
actix = "*"
actix-http = "*"
actix-web = "*"
axum = "*"
chrono = { version = "*", features = ["serde"] }
futures = "*"
regex = "*"
reqwest = { version = "*", default-features = false }
serde = { version = "*", features = ["derive"] }
serde_json = "*"
thiserror = "*"
tokio = { version = "*", features = ["time"] }
tracing = "*"
tracing-actix-web = "*"
uuid = { version = "*", features = ["v4"] }
