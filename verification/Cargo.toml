[package]
name = "trade_tracker"
version = "0.1.0"
edition = "2021"
publish = false

[dependencies]
anyhow = "1"
bitcoin = "0.29"
black_scholes = "*"
chrono = "0.4"
dirs = "5"
hex = { version = "0.4", features = ["serde"] }
hex-conservative = "0.2"
log = "0.4"
minreq = "2"
rust_decimal = "1"
serde = { version = "1", features = ["derive"] }
serde_json = "1"
time = { version = "0.3", features = ["parsing", "formatting", "macros"] }
tungstenite = "0.20"
urlencoding = "2"
