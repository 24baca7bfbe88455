[package]
name = "wired"
version = "0.1.0"
edition = "2021"
publish = false

[dependencies]
discard = "=1.0.4"
futures = "=0.3.34"
futures-signals = "=0.3.34"
futures-timer = "=2.0.2"
jni = "=0.19.0"
log = "=0.4.34"
