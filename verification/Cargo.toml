[package]
name = "fit_portal"
version = "0.1.0"
edition = "2021"
publish = false

[dependencies]
dioxus = { version = "=0.6.3", default-features = false, features = ["macro", "html", "hooks", "signals", "router", "launch", "logger"] }
reqwest = { version = "=0.12.28", features = ["cookies"] }
reqwest_cookie_store = "=0.8.2"
scraper = { version = "=0.20.0", features = ["deterministic"] }
serde = { version = "=1.0.229", features = ["derive"] }
serde_json = "=1.0.154"
tokio = { version = "=1.54.1", features = ["rt-multi-thread"] }
