[package]
name = "iptool"
version = "0.1.0"
edition = "2021"
publish = false

[dependencies]
anyhow = "1"
clap = "3"
libc = "0.2"
log = "0.4"
neli = "0.6"
neli-proc-macros = "0.1"
nix = "0.26"
pnet = "*"
