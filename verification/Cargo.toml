[package]
name = "gorust"
version = "0.2.0"
edition = "2021"
publish = false

[dependencies]
num_cpus = "1"
parking_lot = "0.12"
lazy_static = "1"
log = "0.4"
libc = "0.2"
mio = { version = "1", features = ["os-poll", "os-ext"] }
syn = { version = "2", features = ["full"] }
quote = "1"
proc-macro2 = "1"
