[package]
name = "bluejay_rb"
version = "0.1.0"
edition = "2021"
publish = false

[dependencies]
bluejay-core = "*"
bluejay-parser = "*"
bluejay-validator = "*"
bluejay-printer = "*"
bluejay-visibility = "*"
convert_case = "*"
itertools = "*"
indexmap = "2"
once_cell = "1"
strum = { version = "*", features = ["derive"] }
magnus = "0.6"
rb-sys = "0.9"
