[package]
name = "core_to_core_latency"
version = "0.1.0"
edition = "2021"
publish = false

[dependencies]
ansi_term = "0.12"
cache-padded = "1.2"
clap = { version = "3.2", features = ["derive"] }
core_affinity = "0.5"
crossbeam-utils = "0.8"
ndarray = "0.15"
ordered-float = "3"
quanta = "0.10"
raw-cpuid = "10"
