[package]
name = "rum"
version = "0.1.0"
edition = "2021"
publish = false

[dependencies]
pluralizer = "*"
colored = "2"
time = "0.3"
once_cell = "1"
tokio = { version = "1", features = ["rt-multi-thread", "macros"] }
tokio-postgres = { version = "0.7", features = ["with-time-0_3"] }
aes = "0.8"
aes-gcm-siv = "0.11"
syn = { version = "2", features = ["full"] }
quote = "1"
proc-macro2 = "1"

[dev-dependencies]
regex = "1"
