[package]
name = "spawny"
version = "1.0.0"
edition = "2021"
publish = false

[dependencies]
anyhow = "1"
clap = "4"
futures = "0.3"
libc = "0.2"
tokio = { version = "1", features = ["macros", "process", "rt-multi-thread", "sync"] }
