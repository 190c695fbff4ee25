[package]
name = "som_value"
version = "0.1.0"
edition = "2021"
publish = false

[dependencies]
anyhow = "1"
num-bigint = "=0.4.8"
num-traits = "=0.2.19"
once_cell = "1"
rand = "=0.9.5"
