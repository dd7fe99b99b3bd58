[package]
name = "chasam_core"
version = "0.1.0"
edition = "2021"
publish = false

[dependencies]
anyhow = "*"
bytes = "*"
chrono = "*"
futures = "*"
hex = "*"
image = "*"
md5 = "*"
num_cpus = "*"
sha1 = "*"
threadpool = "*"
tokio = { version = "*", features = ["rt-multi-thread", "sync", "fs", "macros"] }
walkdir = "*"
