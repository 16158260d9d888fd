[package]
name = "fyos"
version = "0.1.0"
edition = "2021"
publish = false

[dependencies]
pc-keyboard = "0.5"
uart_16550 = "0.2"
