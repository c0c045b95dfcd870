[package]
name = "odd_count"
version = "0.1.0"
edition = "2021"
publish = false

[dependencies]
crossbeam = "*"
rayon = "*"
scoped_threadpool = "*"
