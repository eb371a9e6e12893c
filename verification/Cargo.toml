[package]
name = "mafia"
version = "0.1.0"
edition = "2021"
publish = false

[dependencies]
btreemultimap = "*"
nanoid = "*"
rand = "0.8"
ringbuf = "0.2"
