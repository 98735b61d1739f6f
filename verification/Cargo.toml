[package]
name = "websocket_engine"
version = "0.1.0"
edition = "2021"
publish = false

[dependencies]
byteorder = "1"
sha1 = "0.1"
rustc-serialize = "0.3"
http-muncher = "0.2"
mio = "0.5"
