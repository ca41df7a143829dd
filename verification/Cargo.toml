[package]
name = "rim"
version = "0.1.0"
edition = "2021"
publish = false

[dependencies]
unicode-width = "*"
crossterm = "*"
ratatui = "*"
flume = "*"
notify = "*"
tracing = "*"
tracing-subscriber = { version = "*", features = ["env-filter"] }
tracing-appender = "*"
time = { version = "*", features = ["macros"] }
