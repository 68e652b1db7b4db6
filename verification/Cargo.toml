[package]
name = "sophon"
version = "0.1.0"
edition = "2021"
publish = false

[dependencies]
anyhow = "*"
leveldb = "*"
md5 = "*"
memmap2 = "*"
prost = "*"
rayon = "*"
serde = { version = "*", features = ["derive"] }
serde_json = "*"
zstd = "*"
