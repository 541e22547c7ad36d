[package]
name = "mping"
version = "0.1.0"
edition = "2021"
publish = false

[dependencies]
anyhow = "1"
clap = { version = "4", features = ["derive"] }
comfy-table = "7"
futures = "0.3"
rand = "0.8"
surge-ping = "0.8"
tokio = { version = "1", features = ["macros", "net", "rt-multi-thread", "time"] }
