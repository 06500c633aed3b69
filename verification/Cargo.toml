[package]
name = "whyos"
version = "0.1.0"
edition = "2021"
publish = false

[dependencies]
critical-section = "1"
cortex-m = "0.7"
