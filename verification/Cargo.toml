[package]
name = "osc_relay"
version = "0.1.0"
edition = "2021"
publish = false

[dependencies]
rosc = "0.10"
nom = "7"
unicode-bom = "2"
aes = "0.8"
cbc = { version = "0.1", features = ["alloc", "block-padding"] }
sorted-vec = "0.8"
uuid = { version = "1", features = ["v4"] }
time = "0.3"
tokio = { version = "1", features = ["net", "rt", "rt-multi-thread", "time", "macros", "fs"] }
futures = "0.3"
log = "0.4"
