[package]
name = "zip_parser"
version = "0.1.0"
edition = "2021"
publish = false

[dependencies]
memchr = "*"
flate2 = "*"
zstd = "*"
anyhow = "*"
argh = "*"
camino = "*"
chardetng = "*"
encoding_rs = "*"
memmap2 = "*"
rayon = "*"
regex = "*"
serde = { version = "*", features = ["derive"] }
simd-json = "*"
