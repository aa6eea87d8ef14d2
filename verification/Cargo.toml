[package]
name = "sheetpack"
version = "0.1.0"
edition = "2021"
publish = false

[dependencies]
im = "=15.1.0"
num = "=0.4.3"
zip = { version = "=0.6.6", default-features = false }
xmlserde = "=0.14.0"
syn = { version = "=1.0.109", features = ["full"] }
quote = "=1.0.47"
proc-macro2 = "=1.0.107"
