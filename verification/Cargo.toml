[package]
name = "easytier"
version = "0.1.0"
edition = "2021"
publish = false

[dependencies]
dashmap = "*"
crossbeam = "*"
sha2 = "*"
once_cell = "*"
async-trait = "*"
tracing = "*"
tokio = { version = "*", features = ["rt-multi-thread", "time", "macros", "sync"] }
