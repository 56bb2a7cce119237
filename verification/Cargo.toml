[package]
name = "wz_store"
version = "0.1.0"
edition = "2021"
publish = false

[dependencies]
serde_json = "*"
# wz_reader is built without its default zlib-ng feature, whose native
# zlib-ng build this crate avoids; this direct flate2 line exists only to
# switch on flate2's default pure-Rust backend, which wz_reader's
# decompression then uses. Nothing names flate2 directly.
flate2 = "*"
wz_reader = { version = "=0.0.26", default-features = false, features = ["rayon"] }
