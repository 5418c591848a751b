[package]
name = "stream_messages"
version = "0.1.0"
edition = "2021"
publish = false

[dependencies]
hex = "0.4"
futures = "0.3"
pin-project-lite = "0.2"
thiserror = "2.0"
tracing = "0.1"
