[package]
name = "malai"
version = "0.1.0"
edition = "2021"
publish = false

[dependencies]
toml = "*"
mime_guess = "*"
percent-encoding = "*"
fastn-id52 = "*"
serde = { version = "1", features = ["derive"] }
serde_json = "1"
clap = { version = "4", features = ["derive", "env"] }
colored = "*"
tokio = { version = "1", features = ["full"] }
dirs = "*"
eyre = "*"
tracing = "*"
tracing-subscriber = { version = "*", features = ["env-filter"] }
chrono = "*"

[dev-dependencies]
tempfile = "*"
