[package]
name = "rusty_proxy"
version = "0.1.0"
edition = "2021"
publish = false

[dependencies]
http = "1"
bytes = "1"
multimap = "0.10"
url_encoded_data = "*"
thiserror = "1"
serde = { version = "1", features = ["derive"] }
log = "0.4"
futures = "0.3"
tokio = { version = "1", features = ["full"] }
hyper = { version = "1", features = ["full"] }
hyper-util = { version = "0.1", features = ["tokio"] }
http-body-util = "0.1"
rustls = { version = "0.23", default-features = false, features = ["ring", "std", "logging", "tls12"] }
tokio-rustls = { version = "0.26", default-features = false, features = ["ring", "logging", "tls12"] }
webpki-roots = "0.26"
axum = "0.8"
mongodb = "3"
bson = "2"
dotenv = "0.15"
simplelog = "0.12"
