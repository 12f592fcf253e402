[package]
name = "g_cli"
version = "3.0.1"
edition = "2021"
publish = false

[dependencies]
sysinfo = "*"
ureq = { version = "*", default-features = false }
ctrlc = "*"
