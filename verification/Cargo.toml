[package]
name = "x86_rs"
version = "0.1.0"
edition = "2021"
publish = false

[dependencies]
cranelift-codegen = "0.134"
cranelift-frontend = "0.134"
cranelift-jit = "0.134"
cranelift-module = "0.134"
cranelift-native = "0.134"
