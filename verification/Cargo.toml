[package]
name = "cosmic-ext-applet-cheatsheet"
version = "0.1.0"
edition = "2021"
publish = false

[dependencies]
i18n-embed = { version = "*", features = ["fluent-system"] }
unic-langid = "*"
shlex = "*"
rust-embed = "*"
serde = { version = "*", features = ["derive"] }
toml = "*"
log = "*"
env_logger = "*"
