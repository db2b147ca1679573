[package]
name = "blogsite"
version = "0.1.0"
edition = "2021"
publish = false

[dependencies]
pulldown-cmark = "=0.13.4"
axum = "=0.8.9"
tokio = { version = "*", features = ["full"] }
tera = { version = "=2.4.0", features = ["glob_fs"] }
tower-http = { version = "*", features = ["fs"] }
tracing = "*"
tracing-subscriber = "*"
anyhow = "*"
serde = { version = "*", features = ["derive"] }
