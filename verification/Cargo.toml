[package]
name = "mobileconf"
version = "0.1.0"
edition = "2021"
publish = false

[dependencies]
base64 = "0.13"
openssl = "0.10"
plist = { version = "1", default-features = false }
structopt = "0.3"
