[package]
name = "sunyat"
version = "0.1.0"
edition = "2021"
publish = false

[dependencies]
pancurses = "0.17"
libc = "0.2"
