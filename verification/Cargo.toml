[package]
name = "symbol_extractor"
version = "0.1.0"
edition = "2021"
publish = false

[dependencies]
goblin = "=0.10.7"
scroll = "=0.13.0"
clap = "=3.2.25"
thiserror = "=2.0.21"
