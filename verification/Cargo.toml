[package]
name = "erg_lower"
version = "0.1.0"
edition = "2021"
publish = false

[dependencies]
erg_common = "=0.2.6"
erg_parser = "=0.2.6"
