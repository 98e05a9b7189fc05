[package]
name = "archetect_core"
version = "0.1.0"
edition = "2021"
publish = false

[dependencies]
farmhash = "=1.1.5"
url = "=2.5.8"
shellexpand = "=3.1.2"
regex = "=1.13.1"
semver = "=1.0.28"
