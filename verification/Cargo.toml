[package]
name = "fluent_bundle"
version = "0.1.0"
edition = "2021"
publish = false

[dependencies]
icu = "1"
fixed_decimal = "0.5"
chrono = "0.4"
