[package]
name = "heaven"
version = "0.0.1"
edition = "2021"
publish = false

[dependencies]
serde_json = "1"
clap = { version = "4", features = ["derive"] }
anyhow = "1"
colored = "2"
dialoguer = "0.11"
notify = "6"
actix-web = "4"
actix-files = "0.6"
pnet = "0.35"
