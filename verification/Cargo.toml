[package]
name = "chat_loop"
version = "0.1.0"
edition = "2021"
publish = false

[dependencies]
rand = "0.8"
tokio = { version = "1", features = ["rt-multi-thread", "net", "io-util", "sync", "macros", "time"] }
futures = "0.3"
async-trait = "0.1"
hyper = "0.14"
tower = { version = "0.4", features = ["timeout", "util"] }
tower-http = { version = "0.4", features = ["limit", "trace", "auth"] }
tracing = "0.1"
tracing-subscriber = "0.3"
