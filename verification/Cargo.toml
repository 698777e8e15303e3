[package]
name = "pickup_queue"
version = "0.1.0"
edition = "2021"
publish = false

[dependencies]
itertools = "*"
serenity = "0.12"
tokio = { version = "1", features = ["macros", "rt-multi-thread", "time", "sync"] }
rusqlite = { version = "*", features = ["bundled"] }
