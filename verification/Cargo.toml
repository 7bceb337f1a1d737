[package]
name = "calebhamilton_org"
version = "0.1.0"
edition = "2021"
publish = false

[dependencies]
comrak = { version = "0.59", default-features = false, features = ["syntect"] }
toml = "0.8"
words-count = "0.1"
chrono = { version = "0.4", features = ["serde"] }
rss = "2"
serde = { version = "1", features = ["derive"] }
thiserror = "2"
syntect = { version = "5", default-features = false, features = ["default-fancy"] }
leptos = { version = "0.7", features = ["ssr"] }
leptos_meta = "0.7"
leptos_router = "0.7"
leptos_axum = "0.7"
axum = "0.7"
tokio = { version = "1", features = ["full"] }
tower = "0.5"
tower-http = { version = "0.6", features = ["trace", "fs"] }
tracing-subscriber = "0.3"
