[package]
name = "dim_auth"
version = "0.1.0"
edition = "2021"
publish = false

[dependencies]
aes-gcm = "0.9"
base64 = "0.13"
once_cell = "1"
rand = "0.8"
cfg-if = "1"
serde = { version = "1", features = ["derive"] }
toml = "0.5"
warp = { version = "0.3", default-features = false }
