[package]
name = "s3-kit"
version = "0.1.0"
edition = "2021"
publish = false

[dependencies]
bytes = "=1.12.1"
md-5 = "=0.10.6"
hex-simd = "=0.8.0"
s3s = "=0.14.1"
tokio = { version = "=1.54.1", features = ["macros", "rt-multi-thread", "sync", "signal", "io-util", "net"] }
futures = "=0.3.34"
async-trait = "=0.1.92"
hyper = { version = "=1.12.0", features = ["server", "http1"] }
hyper-util = { version = "=0.1.21", features = ["server-auto", "tokio"] }
clap = { version = "=4.6.7", features = ["derive"] }
tracing = "=0.1.44"
tracing-subscriber = { version = "=0.3.23", features = ["env-filter"] }
atty = "=0.2.14"
derivative = "=2.2.0"
bitcode = { version = "=0.6.9", features = ["derive"] }
serde = { version = "=1.0.229", features = ["derive"] }
serde_json = "=1.0.154"
