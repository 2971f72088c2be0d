[package]
name = "net_wire"
version = "0.1.0"
edition = "2021"
publish = false

[dependencies]
wire-repr = "=0.5.2"
