[package]
name = "ttrpc"
version = "0.9.0"
edition = "2021"
publish = false

[dependencies]
byteorder = "=1.5.0"
libc = "=0.2.191"
nix = "=0.26.4"
prost = "=0.14.4"
thiserror = "=1.0.69"
log = "=0.4.35"
crossbeam = "=0.8.5"
