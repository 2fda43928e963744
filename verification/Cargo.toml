[package]
name = "omnistream"
version = "0.1.0"
edition = "2021"
publish = false

[dependencies]
select = "=0.6.1"
reqwest = { version = "=0.13.5", default-features = false }
tokio = { version = "=1.53.2", features = ["macros", "rt-multi-thread"] }
futures = "=0.3.34"
serde = { version = "=1.0.229", features = ["derive"] }
serde_json = "=1.0.151"
serde_urlencoded = "=0.7.1"
vercel_runtime = "=1.1.6"
