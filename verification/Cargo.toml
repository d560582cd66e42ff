[package]
name = "garta"
version = "0.1.0"
edition = "2021"
publish = false

[dependencies]
url = "=2.5.8"
rand = "=0.8.8"
chrono = { version = "=0.4.45", default-features = false, features = ["clock", "std"] }
image = "=0.24.9"
num_cpus = "=1.17.0"
serde = { version = "=1.0.229", features = ["derive"] }
serde_json = "=1.0.154"
regex = "=1.13.1"
xml-rs = "=0.8.29"
log = "=0.4.35"
env_logger = "=0.10.2"
lazy_static = "=1.5.1"
hyper = "=0.10.16"
