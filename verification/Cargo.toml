[package]
name = "rudg"
version = "0.1.0"
edition = "2021"
publish = false

[dependencies]
ra_ap_syntax = "=0.0.310"
dot_graph = "=0.2.3"
clap = "=4.5.61"
