[package]
name = "reg_atomic"
version = "0.1.0"
edition = "2021"
publish = false
