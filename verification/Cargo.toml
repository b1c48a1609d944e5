[package]
name = "llm_tui"
version = "0.1.0"
edition = "2021"
publish = false

[dependencies]
serde = { version = "1", features = ["derive"] }
serde_json = "1"
strum = { version = "*", features = ["derive"] }
ratatui = "*"
crossterm = "*"
tokio = { version = "1", features = ["sync", "rt", "macros"] }
reqwest = { version = "*", default-features = false, features = ["json", "stream"] }
futures = "*"
color-eyre = "*"
tracing = "*"
