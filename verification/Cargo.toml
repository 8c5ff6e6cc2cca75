[package]
name = "currconv"
version = "0.1.0"
edition = "2021"
publish = false

[dependencies]
anyhow = "*"
async-trait = "*"
clap = "*"
colored = "*"
futures = "*"
reqwest = { version = "*", default-features = false }
rust_decimal = "*"
serde = { version = "*", features = ["derive"] }
serde_json = "*"
tokio = { version = "*", features = ["macros", "rt-multi-thread"] }
