[package]
name = "radio_api"
version = "0.1.0"
edition = "2021"
publish = false

[dependencies]
percent-encoding = "*"
chrono = "*"
rouille = "*"
dns-lookup = "*"
handlebars = "*"
serde = { version = "*", features = ["derive"] }
serde_json = "*"
