[package]
name = "bitbar_version"
version = "0.1.0"
edition = "2021"
publish = false

[dependencies]
semver = "1"
bitbar = "*"
chrono = "*"
mimalloc = "*"
plist = "*"
reqwest = { version = "*", default-features = false, features = ["http2", "rustls-tls"] }
serde = { version = "*", features = ["derive"] }
serde_json = "*"
serde_with = "*"
thiserror = "*"
tokio = { version = "*", features = ["macros", "rt", "time"] }
wheel = "*"
xdg = "*"
