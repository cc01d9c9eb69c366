[package]
name = "miden_services"
version = "0.1.0"
edition = "2021"
publish = false

[dependencies]
anyhow = "=1.0.104"
axum = { version = "=0.8.9", default-features = false, features = ["json", "tokio", "http1", "http2"] }
clap = { version = "=4.6.7", features = ["derive", "env"] }
fs-err = "=3.3.2"
hex = "=0.4.3"
maud = "=0.27.0"
miden-protocol = { version = "=0.15.3", default-features = false }
miden-standards = { version = "=0.15.3", default-features = false }
prost = { version = "=0.14.4", default-features = false, features = ["std"] }
rand = "=0.9.5"
rusqlite = { version = "=0.37.0", default-features = false, features = ["bundled"] }
serde = { version = "=1.0.229", features = ["derive"] }
thiserror = "=2.0.21"
tokio = { version = "=1.54.1", features = ["rt", "macros", "sync", "time", "net", "signal"] }
tonic = { version = "=0.14.9", default-features = false, features = ["channel", "router"] }
tonic-health = { version = "=0.14.9", default-features = false }
url = "=2.5.8"
