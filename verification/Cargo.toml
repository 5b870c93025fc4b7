[package]
name = "html2kotlin"
version = "0.1.0"
edition = "2021"
publish = false

[dependencies]
tl = "0.7"
main_error = "0.1"
