[package]
name = "kira"
version = "0.1.0"
edition = "2021"
publish = false

[dependencies]
atomic-arena = "0.1"
ringbuf = "0.2"
