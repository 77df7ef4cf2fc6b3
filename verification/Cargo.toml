[package]
name = "eucalypt"
version = "0.1.0"
edition = "2021"
publish = false

[dependencies]
elf_parser = "*"
limine = "*"
spin = "*"
x86_64 = "*"
xhci = "*"
