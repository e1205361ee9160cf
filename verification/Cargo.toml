[package]
name = "oatui"
version = "0.1.0"
edition = "2021"
publish = false

[dependencies]
anyhow = "1"
crossterm = "*"
openapiv3 = "2"
ratatui = "*"
serde_json = "1"
serde_yaml = "0.9"
