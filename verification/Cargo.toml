[package]
name = "dmi_assistant"
version = "0.1.0"
edition = "2021"
publish = false

[dependencies]
dmi = "*"
image = "*"
serde = { version = "*", features = ["derive"] }
toml = "*"
