[package]
name = "caliptra_spdm"
version = "0.1.0"
edition = "2021"
publish = false

[dependencies]
zerocopy = "0.8"
embassy-executor = "0.7"
embedded-alloc = "0.5"
