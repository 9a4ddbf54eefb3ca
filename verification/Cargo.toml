[package]
name = "tsunagu"
version = "0.1.0"
edition = "2021"
publish = false

[dependencies]
axum = "0.8"
dirs = "6"
libc = "0.2"
okiba = "*"
rustix = { version = "0.38", features = ["process"] }
serde = { version = "1", features = ["derive"] }
serde_json = "1"
thiserror = "2"
tokio = { version = "1", features = ["sync", "signal", "rt", "macros", "net", "time", "io-util", "rt-multi-thread"] }
tracing = "0.1"
tracing-subscriber = { version = "0.3", features = ["env-filter", "json"] }

[dev-dependencies]
tempfile = "3"
