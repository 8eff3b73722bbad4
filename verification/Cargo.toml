[package]
name = "workbench"
version = "0.1.0"
edition = "2021"
publish = false

[dependencies]
glob = "*"
duct = "*"
shell-quote = "*"
fs-err = "*"
clap = { version = "*", features = ["derive"] }
colored = "*"
indicatif = "*"
serde = { version = "*", features = ["derive"] }
serde_yaml = "*"

[dev-dependencies]
tempfile = "*"
filetime = "*"
