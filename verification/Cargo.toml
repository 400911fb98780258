[package]
name = "associate_eip"
version = "0.1.0"
edition = "2021"
publish = false

[dependencies]
rand = "=0.10.3"
tokio = { version = "=1.53.2", features = ["macros", "rt"] }
env_logger = "=0.11.11"
