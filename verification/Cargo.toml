[package]
name = "orbit"
version = "0.1.0"
edition = "2021"
publish = false

[dependencies]
fugit = "=0.3.9"
riscv = "=0.16.1"
embedded-hal = "=1.0.0"
spaceport = "=0.1.1"
proc-macro2 = "=1.0.107"
quote = "=1.0.47"
