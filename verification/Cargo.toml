[package]
name = "process_groups"
version = "0.1.0"
edition = "2021"
publish = false

[dependencies]
phantom_newtype = "*"
test-binary = "*"
