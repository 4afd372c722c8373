[package]
name = "mpc_bench"
version = "0.1.0"
edition = "2021"
publish = false

[dependencies]
queues = "=1.1.0"
csv = "=1.4.0"
tabled = "=0.8.0"
streaming-stats = "0.2"
