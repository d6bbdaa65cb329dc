[package]
name = "spotify_import"
version = "0.1.0"
edition = "2021"
publish = false

[dependencies]
clap = { version = "=3.2.25", features = ["derive"] }
env_logger = "=0.9.3"
lofty = "=0.6.3"
log = "=0.4.34"
rspotify = { version = "=0.12.0", default-features = false, features = ["client-reqwest", "reqwest-rustls-tls", "cli"] }
tokio = { version = "=1.53.2", features = ["macros", "rt-multi-thread"] }
walkdir = "=2.5.0"
