[package]
name = "fspipe"
version = "0.1.0"
edition = "2021"
publish = false

[dependencies]
tokio = { version = "1", features = ["sync", "rt", "rt-multi-thread", "macros"] }
futures = "0.3"
itertools = "*"
snafu = "*"
async-recursion = "*"
