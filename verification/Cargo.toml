[package]
name = "imgedit"
version = "0.1.0"
edition = "2021"
publish = false

[dependencies]
clap = "=3.2.25"
image = "=0.24.9"
num-complex = "=0.4.6"
