[package]
name = "erc20_example"
version = "0.1.0"
edition = "2021"
publish = false

[dependencies]
alloy-sol-types = "=0.7.6"
openzeppelin-stylus = "=0.1.2"
stylus-sdk = "0.6"
ruint = "=1.12.3"
