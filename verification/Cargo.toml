[package]
name = "lavish"
version = "0.1.0"
edition = "2021"
publish = false

[dependencies]
colored = "2"
heck = "0.3"
indexmap = "1"
nom = "7"
