[package]
name = "godot_cell"
version = "0.1.0"
edition = "2021"
publish = false

[dependencies]
glam = "*"
proc-macro2 = "1"
quote = "1"
venial = "0.5"
