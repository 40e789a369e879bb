[package]
name = "video_downloader"
version = "0.1.0"
edition = "2021"
publish = false

[dependencies]
anyhow = "1"
clap = { version = "4", features = ["derive"] }
colored = "*"
dialoguer = { version = "*", default-features = false }
dirs = "*"
tokio = { version = "1", features = ["macros", "rt-multi-thread", "fs"] }
which = "*"
