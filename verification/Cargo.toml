[package]
name = "proxy_vet"
version = "0.1.0"
edition = "2021"
publish = false

[dependencies]
serde_json = "=1.0.151"
maxminddb = "=0.32.0"
ipnetwork = "=0.21.1"
tokio = { version = "*", features = ["rt-multi-thread", "macros", "net", "io-util", "time"] }
futures = "*"
native-tls = "*"
tokio-native-tls = "*"
chrono = "*"
deadpool-postgres = "*"
tokio-postgres = { version = "*", features = ["with-chrono-0_4"] }
