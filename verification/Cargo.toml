[package]
name = "move_dep_bounds"
version = "0.1.0"
edition = "2021"
publish = false

[dependencies]
ethnum = "*"
