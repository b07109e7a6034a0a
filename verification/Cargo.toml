[package]
name = "launch_notifier"
version = "0.1.0"
edition = "2021"
publish = false

[dependencies]
chrono = "0.4"
serde = { version = "1", features = ["derive"] }
serde_json = "1"
tokio = { version = "1", features = ["full"] }
reqwest = { version = "*", default-features = false, features = ["json", "rustls-tls"] }
nanoid = "*"
dunce = "*"
webbrowser = "*"
winrt-notification = "*"
