[package]
name = "clml"
version = "0.2.0"
edition = "2021"
publish = false

[dependencies]
anstream = "0.6"
proc-macro2 = "1"
quote = "1"
syn = { version = "2", features = ["full"] }
terminfo = "0.9"
