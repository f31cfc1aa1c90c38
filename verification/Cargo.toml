[package]
name = "bustd"
version = "0.1.0"
edition = "2021"
publish = false

[dependencies]
argh = "0.1"
cfg-if = "1"
clap = { version = "4", features = ["derive"] }
daemonize = "0.5"
glob = "0.3"
libc = "0.2"
memchr = "2"
