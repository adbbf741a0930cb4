[package]
name = "record_store"
version = "0.1.0"
edition = "2021"
publish = false

[dependencies]
surrealdb = { version = "=1.3.1", default-features = false, features = ["kv-mem"] }
darling = "=0.20.3"
serde = { version = "1", features = ["derive"] }
serde_with_macros = "3"
ts-rs = "*"
tokio = { version = "1", features = ["macros", "rt-multi-thread", "sync"] }
