[package]
name = "system_cleaner"
version = "0.1.0"
edition = "2021"
publish = false

[dependencies]
encoding_rs = "=0.8.44"
sha2 = "=0.10.9"
rand = "=0.8.8"
serde_json = "=1.0.154"
once_cell = "=1.21.4"
