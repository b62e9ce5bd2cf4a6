[package]
name = "reqwest"
version = "0.1.0"
edition = "2021"
publish = false

[dependencies]
http = "=1.5.0"
bytes = "=1.12.1"
url = "=2.5.8"
mime = "=0.3.17"
encoding_rs = "=0.8.44"
serde = "=1.0.229"
serde_json = "=1.0.154"
futures = "=0.3.34"
futures-concurrency = "=7.7.1"
async-iterator = "=2.3.0"
wasi = "=0.12.1"
wasi-async-runtime = "=0.1.2"
wstd = "=0.6.8"
