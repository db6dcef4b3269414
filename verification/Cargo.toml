[package]
name = "compilador"
version = "0.1.0"
edition = "2021"
publish = false

[dependencies]
lrlex = "0.12"
lrpar = "0.12"
thiserror = "1"
