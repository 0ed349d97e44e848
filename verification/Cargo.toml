[package]
name = "cache_registry"
version = "0.1.0"
edition = "2021"
publish = false

[dependencies]
cachers = "*"
actix-web = "4"
serde = { version = "1", features = ["derive"] }
derive_more = { version = "*", features = ["display"] }
