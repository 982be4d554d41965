[package]
name = "wolauth"
version = "0.1.0"
edition = "2021"
publish = false

[dependencies]
argon2 = "0.5"
rand = "0.9"
rand_core = { version = "0.6", features = ["getrandom"] }
jsonwebtoken = "9"
serde = { version = "1", features = ["derive"] }
serde_json = "1"
chrono = "0.4"
axum = "0.8"
tokio = { version = "1", features = ["macros", "rt-multi-thread", "net", "time"] }
clap = { version = "4", features = ["derive"] }
reqwest = { version = "0.12", default-features = false }
surge-ping = "0.8"
wake-on-lan = "*"
