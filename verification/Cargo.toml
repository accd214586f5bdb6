[package]
name = "tmc2209_driver"
version = "0.1.0"
edition = "2021"
publish = false

[dependencies]
embedded-hal = "1.0"
embedded-io = "0.6"
nb = "1"
