[package]
name = "dsh_shell"
version = "0.1.0"
edition = "2021"
publish = false

[dependencies]
base64 = "0.22"
serde = { version = "1", features = ["derive"] }
serde_json = "1"
tokio = { version = "1", features = ["fs", "time"] }
ureq = "2"
zip = { version = "2", default-features = false, features = ["deflate"] }
