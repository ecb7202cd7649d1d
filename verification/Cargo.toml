[package]
name = "firefox_resumer"
version = "0.1.0"
edition = "2021"
publish = false

[dependencies]
chrono = { version = "0.4", default-features = false, features = ["std", "clock"] }
crossterm = "0.27"
itertools = "0.12"
once_cell = "1"
serde = { version = "1", features = ["derive"] }
toml = "0.8"
