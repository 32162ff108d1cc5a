[package]
name = "fyanrirt"
version = "0.1.0"
edition = "2021"
publish = false

[dependencies]
rusmpp = "=0.1.3"
tokio = { version = "=1.54.1", features = ["full"] }
tokio-util = { version = "=0.7.20", features = ["codec"] }
futures = "=0.3.34"
log = "=0.4.34"
tracing = "=0.1.44"
tracing-subscriber = { version = "=0.3.23", features = ["env-filter"] }
colored = "=2.2.0"
clap = { version = "=4.6.7", features = ["cargo"] }
uuid = { version = "=1.29.0", features = ["v4"] }
