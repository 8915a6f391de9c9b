[package]
name = "pcre"
version = "0.2.3"
edition = "2021"
publish = false

[dependencies]
getopts = "=0.2.24"

[dev-dependencies]
regex = "=1.13.1"
