[package]
name = "ats_task"
version = "0.1.0"
edition = "2021"
publish = false

[dependencies]
axconfig = "0.2.2-preview.2"
axerrno = "0.1.2"
memory_addr = "0.3.2"
rand = { version = "0.8.5", features = ["small_rng"] }
smoltcp = "0.10.0"
