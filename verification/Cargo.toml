[package]
name = "plugin"
version = "0.1.0"
edition = "2021"
publish = false

[dependencies]
bytes = "1"
int-enum = "1"
rouille = "3"
serde = { version = "1", features = ["derive"] }
serde_json = "1"
tungstenite = "*"
