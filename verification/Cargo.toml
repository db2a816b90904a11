[package]
name = "wallpaper"
version = "0.1.0"
edition = "2021"
publish = false

[dependencies]
bincode = "1.3"
dirs = "5"
indicatif = "0.17"
log = "0.4"
rand = "0.8"
regex = "1"
reqwest = "0.11"
serde = { version = "1", features = ["derive"] }
serde_json = "1"
sled = "0.34"
structopt = "0.3"
tokio = { version = "1", features = ["macros", "rt-multi-thread"] }
toml = "0.8"
