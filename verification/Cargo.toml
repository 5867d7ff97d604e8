[package]
name = "mmc"
version = "0.1.0"
edition = "2021"
publish = false

[dependencies]
num = "=0.4.3"
regalloc2 = "0.1"
