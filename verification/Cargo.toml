[package]
name = "bundle_tool"
version = "0.1.0"
edition = "2021"
publish = false

[dependencies]
pathdiff = "0.2"
plist = "1"
clap = { version = "3", features = ["derive"] }
log = "0.4"
simple_logger = "*"
is_executable = "1"
rand = "0.8"
scopeguard = "1"
