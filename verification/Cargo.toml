[package]
name = "green_light"
version = "0.1.0"
edition = "2021"
publish = false

[dependencies]
anyhow = "1"
futures-util = "0.3"
gio = "*"
glib = "*"
gtk4 = { version = "*", features = ["v4_10"] }
hex = "0.4"
libadwaita = { version = "*", features = ["v1_5"] }
regex = "1"
reqwest = { version = "0.12", default-features = false, features = ["charset", "http2", "rustls-tls", "stream"] }
scraper = "*"
sha2 = "*"
tokio = { version = "1", features = ["fs", "io-util", "rt-multi-thread", "sync", "time"] }
