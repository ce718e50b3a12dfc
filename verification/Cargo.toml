[package]
name = "undetected_chromedriver"
version = "0.1.0"
edition = "2021"
publish = false

[dependencies]
anyhow = "1"
log = "0.4"
rand = "0.8"
reqwest = { version = "0.11", default-features = false, features = ["json", "rustls-tls"] }
serde = { version = "1", features = ["derive"] }
thirtyfour = "0.31"
tokio = { version = "1", features = ["fs", "process", "time"] }
zip = { version = "0.6", default-features = false, features = ["deflate"] }
