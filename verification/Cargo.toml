[package]
name = "vksl"
version = "0.1.0"
edition = "2021"
publish = false

[dependencies]
mvutils = "*"
mvutils-proc-macro = "*"
itertools = "*"
enum_dispatch = "*"
