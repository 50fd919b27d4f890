[package]
name = "websockets"
version = "0.1.0"
edition = "2021"
publish = false

[dependencies]
base64 = "0.13"
sha1 = "0.10"
rand = "0.8"
rand_chacha = "0.3"
url = "2"
tokio = { version = "1", features = ["net", "io-util", "rt"] }
native-tls = "0.2"
tokio-native-tls = "0.3"
