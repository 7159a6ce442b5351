[package]
name = "abuse_scraping_classifier"
version = "1.0.0"
edition = "2021"
publish = false

[dependencies]
anyhow = "=1.0.104"
pdk = { version = "=1.10.0", features = ["enable_stop_iteration"] }
serde = { version = "=1.0.229", features = ["derive"] }
serde_json = "=1.0.154"
