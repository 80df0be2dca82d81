[package]
name = "async_io_core"
version = "0.1.0"
edition = "2021"
publish = false

[dependencies]
futures-core = "=0.2.1"
iovec = "=0.1.4"
