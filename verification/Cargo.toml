[package]
name = "ckb_debugger"
version = "0.1.0"
edition = "2021"
publish = false

[dependencies]
ckb-vm = { version = "=0.24.15", features = ["pprof"] }
addr2line = "=0.21.0"
goblin = "=0.10.7"
hex = "=0.4.3"
libc = "=0.2.190"
rand = "=0.10.3"
serde_json = "=1.0.151"
