[package]
name = "sql_plan_bridge"
version = "0.1.0"
edition = "2021"
publish = false

[dependencies]
aes-gcm = "0.10"
base64 = "0.22"
chrono = { version = "0.4", features = ["serde"] }
hostname = "0.4"
rand = "0.8"
serde = { version = "1", features = ["derive"] }
serde_json = "1"
sha2 = "0.10"
tiberius = { version = "0.12", default-features = false, features = ["chrono", "rustls", "tds73"] }
tokio = { version = "1", default-features = false, features = ["net", "sync"] }
tokio-util = { version = "0.7", features = ["compat"] }
uuid = { version = "1", features = ["v4"] }
whoami = "1"
