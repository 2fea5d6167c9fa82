[package]
name = "memcrab"
version = "0.1.0"
edition = "2021"
publish = false

[dependencies]
lru = { version = "=0.18.5", default-features = false }
tokio = { version = "=1.53.2", features = ["rt-multi-thread", "net", "io-util", "macros", "time", "sync"] }
clap = { version = "=4.6.7", features = ["derive"] }
rustyline = "=18.0.1"
anyhow = "=1.0.104"
async-trait = "=0.1.92"
tracing = "=0.1.44"
