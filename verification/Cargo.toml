[package]
name = "td_rlua"
version = "0.1.0"
edition = "2021"
publish = false

[dependencies]
td_clua = "*"
libc = "*"
