[package]
name = "krfiles"
version = "0.1.0"
edition = "2021"
publish = false

[dependencies]
clap = { version = "=4.6.7", features = ["derive", "env"] }
colored = "=2.2.0"
rpassword = "=7.5.4"
tokio = { version = "=1.53.2", features = ["macros", "rt-multi-thread"] }
