[package]
name = "skeptic"
version = "0.1.0"
edition = "2021"
publish = false

[dependencies]
pulldown-cmark = "*"
bytecount = "*"
glob = "*"
walkdir = "*"
cargo_metadata = "*"
serde_json = "*"
tempfile = "*"

[dev-dependencies]
unindent = "*"
