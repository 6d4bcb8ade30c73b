[package]
name = "yaar_lock"
version = "0.1.0"
edition = "2021"
publish = false

[dependencies]
futures-core = { version = "0.3", default-features = false }
futures-intrusive = { version = "0.3", default-features = false }
libc = "0.2"
lock_api = "0.3"
