[package]
name = "chs_deck"
version = "0.1.0"
edition = "2021"
publish = false

[dependencies]
base64 = "0.22"
bollard = "*"
dashmap = "6"
futures-util = "0.3"
image = { version = "0.25", default-features = false, features = ["jpeg", "png"] }
log = "0.4"
openaction = "*"
serde = { version = "1", features = ["derive"] }
serde_json = "1"
simplelog = "0.12"
tokio = { version = "1", features = ["macros", "rt-multi-thread", "process", "time", "io-util", "sync"] }
toml = "*"
toml_edit = "*"
