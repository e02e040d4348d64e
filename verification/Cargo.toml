[package]
name = "pcd_rs"
version = "0.1.0"
edition = "2021"
publish = false

[dependencies]
byteorder = "*"
lzf = "*"
memmap2 = "*"
rayon = "*"
