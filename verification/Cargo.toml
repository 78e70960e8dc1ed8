[package]
name = "cache_sync"
version = "0.1.0"
edition = "2021"
publish = false

[dependencies]
anyhow = "=1.0.104"
bytes = "=1.12.1"
futures = "=0.3.34"
git2 = { version = "=0.21.0", default-features = false, features = ["cred"] }
remove_dir_all = "=1.0.0"
tokio = { version = "=1.54.1", features = ["rt", "rt-multi-thread", "macros"] }
tracing = "=0.1.44"
tracing-futures = { version = "=0.2.5", features = ["futures-03"] }
