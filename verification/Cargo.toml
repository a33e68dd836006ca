[package]
name = "async_app"
version = "0.1.0"
edition = "2021"
publish = false

[dependencies]
process_macros = "*"
serde = { version = "1", features = ["derive"] }
serde_json = "1"
uuid = { version = "1", features = ["v4"] }
anyhow = "1"
syn = { version = "2", features = ["full"] }
quote = "1"
proc-macro2 = "1"
