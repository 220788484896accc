[package]
name = "kedi_lang"
version = "0.1.0"
edition = "2021"
publish = false

[dependencies]
wasm-encoder = "*"
wasmprinter = "*"
clap = { version = "4", features = ["derive"] }
patharg = "*"
miette = "*"
lalrpop-util = "*"
lasso = "*"
pretty = "*"

[dev-dependencies]
wasmparser = "*"
