[package]
name = "mips_core"
version = "0.1.0"
edition = "2021"
publish = false

[dependencies]
nom = "7.1"
num-traits = "0.2"
num-derive = "0.4"
