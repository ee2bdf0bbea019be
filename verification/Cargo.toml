[package]
name = "fanbox_archive"
version = "0.1.0"
edition = "2021"
publish = false

[dependencies]
mime = "*"
mime_guess = "*"
chrono = "*"
url = "*"
serde = { version = "*", features = ["derive"] }
serde_json = "*"
serde_with = "*"
log = "*"
env_logger = "*"
clap = { version = "*", features = ["derive", "env"] }
clap-verbosity-flag = "*"
dotenv = "*"
indicatif = "*"
indicatif-log-bridge = "*"
fake_user_agent = "*"
dashmap = "*"
tempfile = "*"
tokio = { version = "*", features = ["full"] }
futures = "*"
reqwest = { version = "*", default-features = false, features = ["rustls-tls", "json"] }
reqwest-middleware = "*"
rusqlite = { version = "*", features = ["bundled"] }
post-archiver = "*"
post-archiver-utils = "*"
plyne = "*"
