[package]
name = "eldenring-practice-tool"
version = "0.1.0"
edition = "2021"
publish = false

[dependencies]
regex = "1"
quick-xml = "*"
semver = "1"
tracing = "0.1"
serde = { version = "1", features = ["derive"] }
serde_json = "1"
serde_yaml = "0.9"
toml = "0.8"
serde_path_to_error = "0.1"
ureq = { version = "2", default-features = false, features = ["json"] }
anyhow = "1"
