[package]
name = "tss"
version = "0.1.0"
edition = "2021"
publish = false

[dependencies]
scc = "=2.4.0"
