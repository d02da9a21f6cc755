[package]
name = "field_updater"
version = "0.1.0"
edition = "2021"
publish = false

[dependencies]
convert_ident = "*"
heck = "*"
proc-macro2 = "1"
quote = "1"
syn = { version = "1", features = ["full"] }
