[package]
name = "rusty_daw_engine"
version = "0.1.0"
edition = "2021"
publish = false

[dependencies]
atomic_refcell = "0.1.14"
audio_graph = "*"
basedrop = "0.1.3"
clap-sys = "0.1.0"
fnv = "1.0.7"
log = "0.4.35"
ringbuf = "0.2.8"
rusty-daw-core = "0.4.0"
smallvec = "1.16.4"
