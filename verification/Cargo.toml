[package]
name = "forward_auth"
version = "0.1.0"
edition = "2021"
publish = false

[dependencies]
bcrypt = "*"
rand = "*"
local_lru = "*"
url = "*"
serde = { version = "*", features = ["derive"] }
serde_json = "*"
toml = "*"
axum = "*"
tokio = { version = "*", features = ["full"] }
tower-cookies = "*"
clap = { version = "*", features = ["derive"] }
