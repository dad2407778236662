[package]
name = "baseplate"
version = "0.1.0"
edition = "2021"
publish = false

[dependencies]
crc = "=3.4.0"
chrono = "=0.4.45"
rand = "=0.10.3"
log = "=0.4.34"
fern = { version = "=0.7.1", features = ["colored"] }
pretty-hex = "=0.4.2"
snafu = "=0.9.2"
crossbeam = "=0.8.5"
async-std = "=1.13.2"
futures = "=0.3.34"
futures-timer = "=3.0.4"
