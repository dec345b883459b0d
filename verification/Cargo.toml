[package]
name = "caustics_macros"
version = "0.1.0"
edition = "2021"
publish = false

[dependencies]
heck = "=0.5.0"
Inflector = "=0.11.4"
syn = { version = "=2.0.119", features = ["full", "extra-traits"] }
quote = "=1.0.47"
proc-macro2 = "=1.0.107"
lazy_static = "=1.5.1"
parking_lot = "=0.12.5"
