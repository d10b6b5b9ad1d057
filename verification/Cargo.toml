[package]
name = "unmult"
version = "0.1.0"
edition = "2021"
publish = false

[dependencies]
after-effects = "=0.2.1"
log = "=0.4.34"
num-traits = "=0.2.19"
rayon = "=1.12.0"
win_dbg_logger = "=0.1.0"
