[package]
name = "site_registry"
version = "0.1.0"
edition = "2021"
publish = false

[dependencies]
encoding_rs = "*"
select = "*"
chrono = "*"
tokio = { version = "*", features = ["rt-multi-thread", "macros", "time"] }
reqwest = { version = "*", default-features = false }
