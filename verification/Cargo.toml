[package]
name = "textshape"
version = "0.1.0"
edition = "2021"
publish = false

[dependencies]
fnv = "*"
harfbuzz_rs = "*"
lru = "*"
owned_ttf_parser = "*"
unicode-bidi = "*"
unicode-script = "*"
