[package]
name = "jsplr"
version = "0.1.0"
edition = "2021"
publish = false

[dependencies]
splr = { version = "=0.17.2", features = ["incremental_solver"] }
jni = "=0.18.0"
