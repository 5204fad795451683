[package]
name = "streaming_gif"
version = "0.1.0"
edition = "2021"
publish = false

[dependencies]
gif = "0.13"
bytes = "1"
futures-util = "0.3"
tokio = { version = "1", features = ["macros", "rt-multi-thread", "net", "time", "process", "io-util", "sync"] }
axum = "0.8"
