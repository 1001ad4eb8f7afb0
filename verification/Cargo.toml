[package]
name = "pm3"
version = "0.1.0"
edition = "2021"
publish = false

[dependencies]
clap = "4"
daemonize = "0.5"
env_logger = "0.10"
futures = "0.3"
log = "0.4"
tarpc = { version = "0.33", features = ["full"] }
tokio = { version = "1", features = ["full"] }
