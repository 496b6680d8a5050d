[package]
name = "luau_fields"
version = "0.1.0"
edition = "2021"
publish = false

[dependencies]
heck = "0.5"
prost-types = "0.12"
