[package]
name = "proxy_rs"
version = "0.1.0"
edition = "2021"
publish = false

[dependencies]
rand = "*"
url = "*"
regex = "*"
autocompress = "*"
tokio = { version = "*", features = ["full"] }
clap = { version = "*", features = ["derive"] }
serde = { version = "*", features = ["derive"] }
serde_json = "*"
native-tls = "*"
tokio-native-tls = "*"
maxminddb = "*"
