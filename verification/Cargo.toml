[package]
name = "rsj"
version = "0.1.0"
edition = "2021"
publish = false

[dependencies]
argh = "0.1"
bstr = "0.2"
ndarray = "0.15"
num-complex = "0.4"
pulldown-cmark = { version = "0.9", default-features = false }
rustyline = "9"
ryu = "1"
similar = "2"
