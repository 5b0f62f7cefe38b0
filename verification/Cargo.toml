[package]
name = "beach"
version = "0.1.0"
edition = "2021"
publish = false

[dependencies]
url = "=2.5.8"
serde = { version = "=1.0.229", features = ["derive"] }
serde_json = "=1.0.154"
argon2 = "=0.6.0"
base64 = "=0.23.1"
chacha20poly1305 = "=0.11.0"
rand = "=0.10.3"
time = { version = "=0.3.55", features = ["serde", "formatting", "parsing"] }
toml = "=1.1.8"
directories = "=6.0.0"
keyring = "=4.2.0"
ratatui = "=0.30.2"
chrono = "=0.4.45"
uuid = "=1.29.0"
crossterm = "=0.29.0"
