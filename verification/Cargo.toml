[package]
name = "avm1_matrix"
version = "0.1.0"
edition = "2021"
publish = false

[dependencies]
swf = "=0.2.2"
