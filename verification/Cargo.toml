[package]
name = "koauth"
version = "0.1.0"
edition = "2021"
publish = false

[dependencies]
serde_json = "1"
tokio = { version = "1", features = ["full"] }
clap = { version = "4", features = ["derive"] }
anyhow = "1"
chrono = "0.4"
lazy_static = "1"
async_once = "0.2"
num-traits = "0.2"
sqlx = { version = "0.8", default-features = false, features = ["postgres", "runtime-tokio", "bigdecimal"] }
