[package]
name = "agimo"
version = "0.1.0"
edition = "2021"
publish = false

[dependencies]
anyhow = "*"
async-trait = "*"
clap = { version = "*", features = ["derive", "env"] }
duration-string = "*"
pingora = { version = "*", features = ["proxy"] }
prometheus = "*"
reqwest = { version = "*", default-features = false, features = ["json"] }
serde = { version = "*", features = ["derive"] }
serde_json = "=1.0.151"
thiserror = "*"
toml = "*"
