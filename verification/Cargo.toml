[package]
name = "niji"
version = "0.1.0"
edition = "2021"
publish = false

[dependencies]
anyhow = "*"
chrono = "*"
clap = "*"
csv = "*"
log = "*"
mlua = { version = "*", features = ["lua54", "vendored"] }
parking_lot = "*"
serde = { version = "*", features = ["derive"] }
serde_with = "*"
shellexpand = "*"
strfmt = "*"
termcolor = "*"
thiserror = "*"
toml = "*"
xattr = "*"
