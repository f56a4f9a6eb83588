[package]
name = "poe_ninja_cli"
version = "0.1.0"
edition = "2021"
publish = false

[dependencies]
anyhow = "*"
clap = { version = "*", features = ["derive"] }
colored = "*"
reqwest = { version = "*", default-features = false }
tabled = "*"
tokio = { version = "*", features = ["rt", "macros"] }
