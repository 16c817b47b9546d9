[package]
name = "charlotte_core"
version = "0.1.0"
edition = "2021"
publish = false

[dependencies]
limine = "0.5"
spin = "0.9"
lazy_static = "1"
pc-keyboard = "0.7"
ignore-result = "0.2"
derive-getters = "0.5"
aarch64-cpu = "9.4"
