[package]
name = "testing_in_rust"
version = "0.1.0"
edition = "2021"
publish = false

[dependencies]
colored = "2"
tokio = { version = "1", features = ["macros", "rt-multi-thread"] }
warp = "0.3"
