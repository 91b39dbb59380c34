[package]
name = "paintbrush"
version = "0.1.0"
edition = "2021"
publish = false

[dependencies]
anyhow = "=1.0.104"
clap = { version = "=4.6.7", features = ["derive"] }
cookie_store = { version = "=0.21.1", features = ["serde_json"] }
directories = "=6.0.0"
keyring = { version = "=3.6.3", features = ["apple-native", "windows-native", "linux-native"] }
oauth2 = { version = "=5.0.0", default-features = false, features = ["ureq"] }
open = "=5.4.5"
serde = { version = "=1.0.229", features = ["derive"] }
serde_json = "=1.0.154"
ureq = { version = "=2.12.1", features = ["json", "cookies"] }
url = "=2.5.8"
