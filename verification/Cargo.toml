[package]
name = "servicio_rust"
version = "0.1.0"
edition = "2021"
publish = false

[dependencies]
chrono = "0.4"
serde = { version = "1.0", features = ["derive"] }
serde_json = "1.0"
reqwest = { version = "0.11", default-features = false, features = ["blocking", "json"] }
ctrlc = "3.2"
actix-web = "4"
tokio = { version = "1", features = ["sync", "rt", "macros"] }
tonic = "*"
