[package]
name = "block_mesh"
version = "0.2.0"
edition = "2021"
publish = false

[dependencies]
ilattice = "*"
ndshape = "*"
