[package]
name = "buffered_logger"
version = "0.1.0"
edition = "2021"
publish = false

[dependencies]
chrono = "0.4"
crossbeam-channel = "0.5"
flate2 = "1"
log = "0.4"
permissions = "*"
