[package]
name = "todo_web"
version = "0.1.0"
edition = "2021"
publish = false

[dependencies]
chrono = { version = "0.4", default-features = false, features = ["std", "clock"] }
serde = { version = "1", features = ["derive"] }
axum = "0.7"
async-trait = "0.1"
sqlx = { version = "0.8", default-features = false, features = ["sqlite", "runtime-tokio"] }
uuid = { version = "1", features = ["v4"] }
