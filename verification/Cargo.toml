[package]
name = "bitdmx"
version = "0.1.0"
edition = "2021"
publish = false

[dependencies]
rustc-serialize = "0.3"
flate2 = "1"
meval = "0.2"
log = "0.3"
ansi_term = "0.12"
net2 = "0.2"
find_folder = "0.3"
