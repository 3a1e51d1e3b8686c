[package]
name = "futils"
version = "0.1.0"
edition = "2021"
publish = false

[dependencies]
num = "0.4"
clap = "2"
regex = "1"
walkdir = "2"
chrono = "0.4"
tabular = "0.2"
users = "0.11"
