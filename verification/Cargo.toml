[package]
name = "project_repo"
version = "0.1.0"
edition = "2021"
publish = false

[dependencies]
anyhow = "*"
tracing = "*"
chrono = "*"
sqlx = { version = "*", default-features = false, features = ["postgres", "runtime-tokio", "chrono"] }
