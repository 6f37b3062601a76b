[package]
name = "i_am_mt"
version = "0.1.0"
edition = "2021"
publish = false

[dependencies]
byteorder = "1"
heck = "0.3"
num = "0.4"
openssl = "0.10"
proc-macro2 = "1"
quote = "1"
rand = "0.8"
serde = { version = "1", features = ["derive"] }
serde_json = "1"

[dev-dependencies]
regex = "1"
