[package]
name = "chatui"
version = "0.1.0"
edition = "2021"
publish = false

[dependencies]
anyhow = "1"
crossterm = { version = "=0.29.0", features = ["event-stream"] }
dotenvy = "*"
futures = "*"
# Not used directly: grammers-crypto needs glass_pumpkin 2.0.0-rc0, and cargo
# resolves that pre-release only when it is named here; rc1 does not compile
# against grammers-crypto.
glass_pumpkin = "=2.0.0-rc0"
grammers-client = "=0.10.0"
grammers-mtsender = "=0.10.0"
grammers-session = "=0.10.0"
ratatui = "=0.30.2"
tokio = { version = "1", features = ["macros", "rt-multi-thread", "sync", "time"] }
tracing = "*"
tracing-subscriber = { version = "*", features = ["env-filter"] }
