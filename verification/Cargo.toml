[package]
name = "tachiyomi_backup_to_anilist"
version = "0.1.0"
edition = "2021"
publish = false

[dependencies]
indicatif = "=0.17.11"
libflate = "=2.3.2"
prost = "=0.12.6"
ron = "=0.8.1"
ureq = { version = "=2.12.1", features = ["json"] }
url = "=2.5.8"
webbrowser = "=1.2.6"
serde = { version = "=1.0.229", features = ["derive"] }
