[package]
name = "mrbgpd"
version = "0.1.0"
edition = "2021"
publish = false

[dependencies]
futures = "0.3"
rtnetlink = "0.9"
tokio = { version = "1", features = ["macros", "rt-multi-thread", "time"] }
