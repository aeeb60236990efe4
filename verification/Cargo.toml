[package]
name = "epaper_display"
version = "0.1.0"
edition = "2021"
publish = false

[dependencies]
image = "*"
chrono = "*"
axum = "*"
tokio = { version = "*", features = ["macros", "rt", "signal", "sync", "time", "net"] }
reqwest = { version = "*", default-features = false }
serde = { version = "*", features = ["derive"] }
serde_json = "*"
clap = { version = "*", features = ["derive"] }
anyhow = "*"
thiserror = "*"
once_cell = "*"
bytes = "*"
tracing = "*"
tracing-subscriber = { version = "*", features = ["env-filter"] }
rppal = "*"
