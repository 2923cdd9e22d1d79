[package]
name = "webcrawler"
version = "1.0.0"
edition = "2021"
publish = false

[dependencies]
url = "2"
mime = "0.3"
select = "0.6"
reqwest = { version = "0.11", default-features = false, features = ["rustls-tls"] }
tokio = { version = "1", features = ["full"] }
futures = "0.3"
serde = { version = "1", features = ["derive"] }
serde_json = "1"
clap = { version = "4", features = ["derive"] }
thirtyfour = "*"
trust-dns-resolver = "0.23"
