[package]
name = "site_builder"
version = "0.1.0"
edition = "2021"
publish = false

[dependencies]
color-eyre = "0.6"
gray_matter = "0.2"
regex = "1"
xml-rs = "0.8"
