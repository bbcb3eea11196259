[package]
name = "idasen_cli"
version = "0.1.0"
edition = "2021"
publish = false

[dependencies]
anyhow = "1"
clap = { version = "3", features = ["derive"] }
directories = "*"
idasen = "*"
tokio = { version = "1", features = ["macros", "rt"] }
tokio-stream = "0.1"
