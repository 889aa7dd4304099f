[package]
name = "balance_formula"
version = "0.1.0"
edition = "2021"
publish = false

[dependencies]
astro-float = "=0.9.6"
