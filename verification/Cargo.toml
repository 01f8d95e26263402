[package]
name = "appimagetool"
version = "0.1.0"
edition = "2021"
publish = false

[dependencies]
libc = "0.2"
thiserror = "2"
ureq = "3"
zsync-rs = "*"
