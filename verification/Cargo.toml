[package]
name = "coronabot"
version = "0.1.0"
edition = "2021"
publish = false

[dependencies]
chrono = "0.4"
num-format = "0.4"
uuid = { version = "1", features = ["v4"] }
gnuplot = "0.0"
rust-s3 = { version = "0.35", features = ["blocking"] }
reqwest = { version = "0.12", default-features = false, features = ["blocking", "rustls-tls"] }
serde = { version = "1", features = ["derive"] }
serde_json = "1"
slack = "0.25"
