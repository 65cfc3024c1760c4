[package]
name = "cirrus"
version = "0.1.0"
edition = "2021"
publish = false

[dependencies]
egui = "0.31"
egui-notify = "0.19"
toml = "0.8"
serde = { version = "1", features = ["derive"] }
dirs = "*"
textwrap = "*"
log = "*"
reqwest = { version = "0.12", default-features = false, features = ["blocking", "json"] }
