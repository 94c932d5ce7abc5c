[package]
name = "secsp"
version = "0.1.0"
edition = "2021"
publish = false

[dependencies]
codespan = "=0.2.1"
codespan-reporting = "=0.2.1"

[dev-dependencies]
nom = "=3.2.1"
logos = "0.9"
