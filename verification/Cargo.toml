[package]
name = "doip"
version = "0.1.0"
edition = "2021"
publish = false

[dependencies]
rand = "=0.7.3"
sha1 = "=0.6.1"
actix = "=0.13.5"
actix-rt = "=2.15.0"
actix-web = { version = "=4.18.1", default-features = false, features = ["macros"] }
tokio = { version = "=1.54.1", features = ["full"] }
reqwest = { version = "=0.11.27", default-features = false, features = ["json"] }
hyper = { version = "=0.14.32", features = ["server", "http1", "tcp"] }
byte = "0.2"
serde = { version = "=1.0.229", features = ["derive"] }
serde_json = "=1.0.154"
log = "=0.4.35"
log4rs = "=1.4.0"
config = { version = "=0.13.4", default-features = false, features = ["toml", "yaml"] }
thiserror = "=1.0.69"
derive_more = "=0.99.20"
