[package]
name = "repo_crawler"
version = "0.1.0"
edition = "2021"
publish = false

[dependencies]
glob = "*"
base64 = "*"
url = "*"
serde = { version = "*", features = ["derive"] }
serde_json = "*"
clap = "*"
tempfile = "*"
git2 = { version = "*", default-features = false }
reqwest = { version = "*", default-features = false, features = ["blocking", "json", "rustls-tls"] }
