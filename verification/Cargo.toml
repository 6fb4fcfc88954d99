[package]
name = "classfile"
version = "0.1.0"
edition = "2021"
publish = false

[dependencies]
bytes = "0.5"
hashbrown = "*"
log = "*"
once_cell = "*"
parking_lot = "*"
simplelog = "*"
zip = { version = "*", default-features = false }
