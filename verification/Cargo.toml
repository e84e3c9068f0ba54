[package]
name = "a3_paa"
version = "0.1.0"
edition = "2021"
publish = false

[dependencies]
minilzo-rs = "0.6"
texpresso = "2"
byteorder = "1"
unicode-xid = "0.2"
image = { version = "0.24", default-features = false, features = ["png"] }
clap = { version = "3", features = ["cargo"] }
anyhow = "1"
tap = "1"
tracing = "0.1"
tracing-subscriber = "0.3"
wild = "2"
ddsfile = "0.5"
steamlocate = "1"
