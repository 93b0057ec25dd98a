[package]
name = "swi_prolog"
version = "0.1.0"
edition = "2021"
publish = false

[dependencies]
lazy_static = "1"
log = "0.4"
tokio = { version = "1", default-features = false, features = ["rt", "rt-multi-thread"] }
