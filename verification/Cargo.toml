[package]
name = "amsync"
version = "0.1.0"
edition = "2021"
publish = false

[dependencies]
chrono = "=0.4.45"
stringmetrics = "=2.2.2"
serde_json = "=1.0.151"
reqwest = { version = "=0.13.5", features = ["json", "query"] }
tokio = { version = "=1.53.2", features = ["full"] }
warp = { version = "=0.4.3", features = ["server"] }
webbrowser = "=1.2.4"
toml = "=1.1.6"
futures = "=0.3.34"
spotify-rs = "=0.4.1"
