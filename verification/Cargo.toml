[package]
name = "discord_assist"
version = "0.1.0"
edition = "2021"
publish = false

[dependencies]
anyhow = "=1.0.104"
async-trait = "=0.1.92"
reqwest = { version = "=0.12.28", default-features = false, features = ["json", "rustls-tls", "cookies"] }
serde = { version = "=1.0.229", features = ["derive"] }
serde_json = "=1.0.151"
serenity = "=0.12.5"
thiserror = "=1.0.69"
tokio = { version = "=1.53.2", features = ["fs", "macros", "rt-multi-thread", "sync", "time"] }
toml = "*"
tracing = "=0.1.44"
tracing-subscriber = { version = "=0.3.23", features = ["env-filter"] }
