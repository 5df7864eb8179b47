[package]
name = "nil"
version = "0.1.0"
edition = "2021"
publish = false

[dependencies]
dynasmrt = "*"
elf = "*"
libc = "*"
