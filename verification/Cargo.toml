[package]
name = "simple_lisp"
version = "0.1.0"
edition = "2021"
publish = false

[dependencies]
byteorder = "1"
clap = { version = "4", features = ["derive"] }
libloading = "0.8"
pest = "2"
pest_derive = "2"
rand = "0.8"
unescaper = "0.1"
