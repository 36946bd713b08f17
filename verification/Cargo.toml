[package]
name = "harmoniq"
version = "0.1.0"
edition = "2021"
publish = false

[dependencies]
ringbuf = "0.3"
parking_lot = "0.12"
