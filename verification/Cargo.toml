[package]
name = "iox_catalog"
version = "0.1.0"
edition = "2021"
publish = false

[dependencies]
async-trait = "0.1"
futures = "0.3"
parking_lot = "0.12"
serde = { version = "1", features = ["derive"] }
sqlx = { version = "0.6.3", default-features = false, features = ["runtime-tokio-rustls", "sqlite", "json", "uuid", "macros", "migrate"] }

[dev-dependencies]
tokio = { version = "1", features = ["rt"] }
uuid = { version = "1", features = ["v4"] }
