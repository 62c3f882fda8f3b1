[package]
name = "pg_migrator"
version = "0.1.0"
edition = "2021"
publish = false

[dependencies]
postgres = { version = "=0.19.14", features = ["with-chrono-0_4"] }
tokio-postgres = { version = "=0.7.18", features = ["with-chrono-0_4"] }
chrono = "=0.4.45"
