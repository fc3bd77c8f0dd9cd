[package]
name = "skill_utils"
version = "0.1.0"
edition = "2021"
publish = false

[dependencies]
semver = "1"
pathdiff = "0.2"
clap = { version = "4", features = ["derive"] }
anyhow = "1"

[dev-dependencies]
serde_json = "1"
