[package]
name = "local-upload-agent"
version = "0.1.0"
edition = "2021"
publish = false

[dependencies]
mime_guess = "2"
reqwest = { version = "0.12", default-features = false, features = ["blocking", "json", "rustls-tls"] }
rfd = { version = "0.15", default-features = false, features = ["xdg-portal", "tokio"] }
serde = { version = "1", features = ["derive"] }
serde_json = "1"
tiny_http = "0.12"
url = "2"
uuid = { version = "1", features = ["v4"] }
