[package]
name = "libloadorder"
version = "0.1.0"
edition = "2021"
publish = false

[dependencies]
esplugin = "=6.1.4"
unicase = "=2.10.0"
encoding_rs = "=0.8.44"
rust-ini = "=0.21.3"
keyvalues-parser = "=0.2.4"
dirs = "=5.0.1"
windows = { version = "*", features = ["System_UserProfile", "Foundation_Collections"] }

[dev-dependencies]
tempfile = "=3.27.0"
