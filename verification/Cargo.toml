[package]
name = "iron_gcd"
version = "0.1.0"
edition = "2021"
publish = false

[dependencies]
iron = "=0.6.1"
mime = "=0.2.6"
url = "=1.7.2"
