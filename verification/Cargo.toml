[package]
name = "opcua-tag-browser"
version = "0.2.2"
edition = "2021"
publish = false

[dependencies]
opcua = { version = "0.12", default-features = false, features = ["client"] }
log = "0.4"
serde = { version = "1", features = ["derive"] }
serde_json = "1"
thiserror = "1"
chrono = "0.4"
ctrlc = "3"
