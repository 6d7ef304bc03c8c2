[package]
name = "rtmp"
version = "0.1.0"
edition = "2021"
publish = false

[dependencies]
byteorder = "1"
bytes = "0.5"
failure = "0.1"
tokio = { version = "0.2", features = ["io-util", "stream", "time"] }
tokio-util = { version = "0.3", features = ["codec"] }

[dev-dependencies]
tokio = { version = "0.2", features = ["io-util", "rt-core", "stream", "time"] }
