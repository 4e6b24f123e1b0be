[package]
name = "next_web"
version = "0.1.0"
edition = "2021"
publish = false

[dependencies]
chrono = "*"
chrono-tz = "*"
next-web-core = "*"
next-web-context = "*"
next-web-singletons = "*"
rudi-dev = "*"
serde = { version = "*", features = ["derive"] }
serde_yaml = "*"
tracing = "*"
tracing-appender = "*"
tracing-subscriber = { version = "*", features = ["env-filter", "chrono"] }
