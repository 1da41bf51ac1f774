[package]
name = "parking_lot"
version = "0.1.0"
edition = "2021"
publish = false
