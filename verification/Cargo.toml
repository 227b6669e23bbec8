[package]
name = "dump_store"
version = "0.1.0"
edition = "2021"
publish = false

[dependencies]
warp = { version = "=0.4.3", features = ["server"] }
tokio = { version = "=1.53.2", features = ["rt-multi-thread", "macros"] }
