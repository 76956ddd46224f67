[package]
name = "reign_router"
version = "0.2.1"
edition = "2021"
publish = false

[dependencies]
regex = "=1.13.1"
hyper = { version = "=0.14.32", features = ["server", "tcp", "http1", "http2"] }
futures = "=0.3.34"
bb8-redis = "*"
once_cell = "*"
env_logger = "*"
