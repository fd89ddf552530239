[package]
name = "browser_switch"
version = "0.1.0"
edition = "2021"
publish = false

[dependencies]
url = "=2.5.8"
indexmap = { version = "=2.14.2", features = ["serde"] }
serde = { version = "=1.0.229", features = ["derive"] }
toml_edit = { version = "=0.22.27", features = ["serde"] }
iced = { version = "=0.12.1", default-features = false, features = ["lazy"] }

[dev-dependencies]
regex = "=1.13.1"
