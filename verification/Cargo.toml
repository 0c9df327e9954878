[package]
name = "gosub_style"
version = "0.1.0"
edition = "2021"
publish = false

[dependencies]
anyhow = "1"
clap = "4"
ureq = "3"
url = "2"
