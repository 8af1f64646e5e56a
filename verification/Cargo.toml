[package]
name = "qoget"
version = "0.1.0"
edition = "2021"
publish = false

[dependencies]
anyhow = "1"
base64 = "0.22"
clap = { version = "4", features = ["derive"] }
futures = "0.3"
indicatif = "0.17"
md5 = "0.7"
regex = "1"
reqwest = { version = "0.12", features = ["json", "cookies"] }
rpassword = "7"
serde = { version = "1", features = ["derive"] }
serde_json = "1"
tokio = { version = "1", features = ["full"] }
toml = "0.8"
zip = { version = "2", default-features = false, features = ["deflate"] }
