[package]
name = "bk_rom"
version = "0.1.0"
edition = "2021"
publish = false

[dependencies]
elf = "=0.0.12"
md5 = "=0.7.0"
