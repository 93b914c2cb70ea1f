[package]
name = "rhythm_arena"
version = "0.1.0"
edition = "2021"
publish = false

[dependencies]
serde = { version = "1", features = ["derive"] }
serde_json = "1"
chrono = { version = "0.4", features = ["serde"] }
clap = { version = "4", features = ["derive"] }
tokio = { version = "1", features = ["macros", "rt-multi-thread", "time", "io-std", "io-util", "process"] }
thiserror = "2"
anyhow = "1"
tracing = "0.1"
axum = "0.8"
reqwest = { version = "0.12", default-features = false, features = ["json"] }
rune = "0.14"
owo-colors = "4"
