[package]
name = "trx"
version = "0.1.0"
edition = "2021"
publish = false

[dependencies]
async-trait = "0.1"
clap = { version = "3", features = ["derive"] }
color-eyre = "0.6"
crossbeam-channel = "0.5"
csv = "1"
fnv = "1"
futures = "0.3"
num_cpus = "1"
rust_decimal = "1"
serde = { version = "1", features = ["derive"] }
tokio = { version = "1", features = ["macros", "rt-multi-thread", "sync"] }
tracing = "0.1"
