[package]
name = "juniper_eager_loading"
version = "0.5.0"
edition = "2021"
publish = false

[dependencies]
juniper-from-schema = "0.5"
heck = "0.3"
syn = { version = "1", features = ["full", "extra-traits"] }
quote = "1"
proc-macro2 = "1"
bae = "0.1"
proc-macro-error = "1"

[dev-dependencies]
juniper = "0.14"
