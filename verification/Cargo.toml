[package]
name = "avprocessor"
version = "0.1.0"
edition = "2021"
publish = false

[dependencies]
chrono = "0.4"
rocket = { version = "0.5", features = ["json"] }
rocket_db_pools = { version = "0.1", features = ["sqlx_sqlite"] }
sqlx = { version = "0.7", default-features = false, features = ["macros", "migrate", "sqlite"] }
tungstenite = "0.20"
url = "2"
