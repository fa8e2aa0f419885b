[package]
name = "rfc_reader"
version = "0.1.0"
edition = "2021"
publish = false

[dependencies]
anyhow = "*"
clap = "*"
crossterm = "*"
directories = "*"
env_logger = "*"
file-rotate = "*"
log = "*"
ratatui = "*"
textwrap = "*"
ureq = "*"
