[package]
name = "path_proxy"
version = "0.1.0"
edition = "2021"
publish = false

[dependencies]
actix-web = "=4.18.1"
anyhow = "=1.0.104"
futures = "=0.3.34"
log = "=0.4.34"
mime = "=0.3.17"
regex = "=1.13.1"
reqwest = { version = "=0.11.27", default-features = false, features = ["stream", "rustls-tls"] }
strfmt = "=0.2.6"
