[package]
name = "sqlite_cms"
version = "0.1.0"
edition = "2021"
publish = false

[dependencies]
urlencoding = "=2.1.3"
hmac = "=0.12.1"
sha2 = "=0.10.9"
base64 = "=0.22.1"
chrono = "=0.4.45"
serde = { version = "=1.0.229", features = ["derive"] }
serde_json = "=1.0.154"
rand = "=0.8.8"
argon2 = "=0.5.3"
sqlx = { version = "=0.8.6", default-features = false, features = ["sqlite", "runtime-tokio"] }
tokio = { version = "=1.54.1", features = ["rt", "macros"] }
minijinja = { version = "=2.24.0", features = ["loader"] }
minijinja-autoreload = "=2.24.0"
zip = { version = "=2.6.1", default-features = false, features = ["deflate"] }
anyhow = "=1.0.104"
tower-sessions = { version = "0.14", features = ["signed"] }
time = "0.3"
