[package]
name = "sptf-tui"
version = "0.1.0"
edition = "2021"
publish = false

[dependencies]
anyhow = "1"
async-trait = "0.1"
clap = { version = "4", features = ["derive", "env"] }
config = { version = "0.14", default-features = false, features = ["toml"] }
crossterm = { version = "0.28", features = ["event-stream"] }
directories = "5"
font8x8 = "0.3"
futures = "0.3"
image = { version = "0.25", default-features = false, features = ["png", "jpeg"] }
ratatui = "0.29"
ratatui-image = { version = "8", default-features = false, features = ["crossterm"] }
reqwest = { version = "0.12", default-features = false, features = ["rustls-tls"] }
serde = { version = "1", features = ["derive"] }
thiserror = "2"
tokio = { version = "1", features = ["full"] }
tracing = "0.1"
tracing-appender = "0.2"
tracing-subscriber = { version = "0.3", features = ["env-filter"] }
tui-big-text = "0.7"
unicode-width = "0.2"
url = "2"
zbus = { version = "5", default-features = false, features = ["tokio"] }
