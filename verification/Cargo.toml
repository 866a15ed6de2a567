[package]
name = "shiplift"
version = "0.2.0"
edition = "2021"
publish = false

[dependencies]
url = "=0.5.10"
rustc-serialize = "=0.3.25"
hyper = { version = "0.10", default-features = false }
hyperlocal = "0.3"
jed = "=0.1.2"
openssl = "0.10"
tar = "=0.4.46"
flate2 = "=0.2.20"
mime = "=0.2.6"
log = "=0.3.9"
