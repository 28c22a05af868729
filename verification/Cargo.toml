[package]
name = "dbg_expy"
version = "0.1.0"
edition = "2021"
publish = false

[dependencies]
iced-x86 = "*"
unicorn-engine = "*"
x64dbg_sdk_sys = "*"
