[package]
name = "experiment_status"
version = "0.1.0"
edition = "2021"
publish = false

[dependencies]
chrono = "0.4"
glob = "0.3"
config = { version = "0.13", default-features = false, features = ["toml"] }
env_logger = "0.10"
log = "0.4"

[dev-dependencies]
tempfile = "3"
filetime = "0.2"
