[package]
name = "cawird"
version = "0.1.0"
edition = "2021"
publish = false

[dependencies]
bytes = "=1.12.1"
memchr = "=2.8.3"
encoding = "=0.2.33"
tokio = { version = "=1.53.2", features = ["rt-multi-thread", "macros", "net", "time", "sync", "io-util", "fs"] }
tokio-util = { version = "=0.7.19", features = ["codec"] }
tokio-native-tls = "=0.3.1"
futures-util = { version = "=0.3.34", features = ["sink"] }
trust-dns-resolver = "=0.23.2"
figment = { version = "=0.10.19", features = ["toml", "env"] }
serde = { version = "=1.0.229", features = ["derive"] }
thiserror = "=1.0.69"
