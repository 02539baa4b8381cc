[package]
name = "mopro_bindings"
version = "0.1.0"
edition = "2021"
publish = false

[dependencies]
mopro-ffi = "*"
noir_rs = "*"
serde_json = "1"
thiserror = "*"
uniffi = "*"
