[package]
name = "fluxvoice"
version = "0.1.0"
edition = "2021"
publish = false

[dependencies]
audiopus = "*"
ogg = "*"
cpal = "*"
enigo = "*"
global-hotkey = "*"
log = "*"
env_logger = "*"
reqwest = { version = "*", default-features = false, features = ["json", "multipart"] }
serde = { version = "*", features = ["derive"] }
serde_json = "*"
tokio = { version = "*", features = ["rt", "sync", "time", "macros"] }
