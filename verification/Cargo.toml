[package]
name = "log_inspector"
version = "0.1.0"
edition = "2021"
publish = false

[dependencies]
async-trait = "0.1"
dirs = "*"
dotenvy = "0.15"
futures = "0.3"
langchain-rust = "*"
reqwest = { version = "0.12", features = ["json"] }
serde = { version = "1", features = ["derive"] }
tokio = { version = "1", features = ["macros", "rt-multi-thread"] }
