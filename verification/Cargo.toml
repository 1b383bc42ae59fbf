[package]
name = "scm_fleet"
version = "0.1.0"
edition = "2021"
publish = false

[dependencies]
a2 = "=0.10.0"
actix = "=0.13.5"
actix-cors = "=0.7.2"
actix-files = "=0.6.10"
actix-multipart = "=0.6.2"
actix-service = "=2.0.3"
actix-web = { version = "=4.18.1", default-features = false, features = ["macros", "ws"] }
actix-web-actors = "=4.3.1"
chrono = "=0.4.45"
futures = "=0.3.34"
get_if_addrs = "=0.5.3"
jsonwebtoken = "=9.3.1"
mongodb = "=2.8.2"
pwhash = "=1.0.0"
reqwest = { version = "=0.12.28", default-features = false, features = ["multipart", "rustls-tls"] }
serde = { version = "=1.0.229", features = ["derive"] }
serde_json = "=1.0.154"
tokio = { version = "=1.54.1", features = ["full"] }
uuid = { version = "=1.29.0", features = ["v4"] }
