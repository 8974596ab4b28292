[package]
name = "dy_screen_client"
version = "0.1.0"
edition = "2021"
publish = false

[dependencies]
sha2 = "0.10"
hex = "0.4"
unicode-segmentation = "1"
serde = { version = "1", features = ["derive"] }
serde_json = "1"
thiserror = "2"
chrono = "0.4"
tokio = { version = "1", features = ["process", "io-util", "time", "rt", "macros", "fs"] }
tokio-util = "0.7"
png = "0.17"
fontdue = "0.9"
