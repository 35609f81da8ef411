[package]
name = "nefu"
version = "0.1.0"
edition = "2021"
publish = false

[dependencies]
toml = "0.8"
sha2 = "0.10"
sha1 = "0.10"
hmac = "0.12"
aes-gcm = "0.10"
rand = "0.8"
hex = "0.4"
base64 = "0.22"
zip = { version = "0.6", default-features = false, features = ["deflate"] }
image = { version = "0.25", default-features = false, features = ["png"] }
serde_json = "1"
serde = { version = "1", features = ["derive"] }
mime_guess = "2"
sysinfo = "0.30"
clap = { version = "4", features = ["derive"] }
anyhow = "1"
log = "0.4"
env_logger = "0.11"
ureq = { version = "2", default-features = false }
walkdir = "2"
tiny_http = "0.12"
notify = "6"
dirs-next = "2"
