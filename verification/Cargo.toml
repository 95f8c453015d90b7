[package]
name = "chiral_client"
version = "0.1.0"
edition = "2021"
publish = false

[dependencies]
serde_json = "1"
tonic = "0.12"
prost = "0.13"
tokio = { version = "1", features = ["macros", "rt-multi-thread"] }
ftp = "3"
dotenvy = "0.15"
derivative = "2"
rand = "0.8"

[dev-dependencies]
uuid = { version = "1", features = ["v4"] }
