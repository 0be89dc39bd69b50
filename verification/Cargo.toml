[package]
name = "arq_lib"
version = "0.2.0"
edition = "2021"
publish = false

[dependencies]
regex = "1"
clap = "2"
oxigraph = { version = "0.2", default-features = false }
