[package]
name = "x-sync"
version = "0.1.0"
edition = "2021"
publish = false

[dependencies]
chrono = { version = "0.4", default-features = false, features = ["std", "clock", "serde"] }
reqwest = { version = "0.12", default-features = false, features = ["json"] }
serde = { version = "1", features = ["derive"] }
serde_json = "1"
sha2 = "0.10"
sqlx = { version = "0.8", default-features = false, features = ["runtime-tokio", "postgres", "sqlite", "uuid", "chrono", "json", "macros"] }
thiserror = "2"
tokio = { version = "1", features = ["rt", "fs", "time", "macros"] }
uuid = { version = "1", features = ["v7", "serde"] }
