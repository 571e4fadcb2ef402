[package]
name = "testcall"
version = "0.1.0"
edition = "2021"
publish = false

[dependencies]
regex = "1"
tempfile = "3"
bintest = "*"
testpath = "*"
