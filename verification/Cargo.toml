[package]
name = "emscripten_env"
version = "0.1.0"
edition = "2021"
publish = false

[dependencies]
wasmer = "=7.0.1"
log = "=0.4.35"
