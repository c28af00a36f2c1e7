[package]
name = "md_translate"
version = "0.1.0"
edition = "2021"
publish = false

[dependencies]
clap = { version = "4", features = ["derive"] }
comrak = { version = "0.15", default-features = false }
dirs = "4"
env_logger = "0.10"
log = "0.4"
minidom = "0.15"
reqwest = { version = "0.11", default-features = false, features = ["json", "rustls-tls"] }
serde = { version = "1", features = ["derive"] }
tokio = { version = "1", features = ["rt", "macros"] }
toml = "0.5"
