[package]
name = "opening_repertoire"
version = "0.1.0"
edition = "2021"
publish = false

[dependencies]
pgn-reader = "=0.26.0"
clap = "=2.34.0"
