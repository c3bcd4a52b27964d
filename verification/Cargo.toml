[package]
name = "bounded_spsc_queue"
version = "0.4.0"
edition = "2021"
publish = false

[dependencies]
cache-padded = "=1.2.0"
