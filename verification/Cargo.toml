[package]
name = "lv8"
version = "0.1.0"
edition = "2021"
publish = false

[dependencies]
clap = { version = "4", features = ["derive"] }
lazy_static = "1"
owo-colors = "4"
pest = "2"
pest_derive = "2"
rustyline = "14"
