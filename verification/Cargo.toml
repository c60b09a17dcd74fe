[package]
name = "gravel_gateway"
version = "0.1.0"
edition = "2021"
publish = false

[dependencies]
openmetrics-parser = "*"
twox-hash = "1.6"
bcrypt = "*"
base64 = "0.13"
urlencoding = "2"
warp = "0.3"
tokio = { version = "1", features = ["full"] }
reqwest = { version = "*", default-features = false }
futures = "*"
clap = "2"
trust-dns-resolver = "*"
