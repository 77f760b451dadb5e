[package]
name = "packet"
version = "0.1.0"
edition = "2021"
publish = false

[dependencies]
zerocopy = "0.6"
failure = "0.1"
fuchsia-zircon = "0.3"
