[package]
name = "ch8alib"
version = "0.1.0"
edition = "2021"
publish = false

[dependencies]
ch8-isa = "*"
