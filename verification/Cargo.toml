[package]
name = "feed_lib"
version = "0.1.0"
edition = "2021"
publish = false

[dependencies]
chrono = "0.4"
clap = "4"
encoding_rs = "0.8"
encoding_rs_io = "0.1"
env_logger = "0.11"
feed-rs = "2"
futures = "0.3"
log = "0.4"
mongodb = "3"
once_cell = "1"
reqwest = { version = "0.12", default-features = false, features = ["rustls-tls"] }
serde = { version = "1", features = ["derive"] }
sha2 = "0.10"
tokio = { version = "1", features = ["full"] }
urlencoding = "2"
