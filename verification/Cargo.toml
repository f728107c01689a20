[package]
name = "wydy"
version = "0.1.0"
edition = "2021"
publish = false

[dependencies]
verex = "=0.2.2"
app_dirs = "=1.2.1"
clap = "=2.34.0"
log = "=0.4.35"
simplelog = "=0.12.2"
