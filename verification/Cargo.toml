[package]
name = "bigneon_cache"
version = "0.1.0"
edition = "2021"
publish = false

[dependencies]
serde_json = "1"
url = "2"
num_cpus = "1"
redis = "*"
