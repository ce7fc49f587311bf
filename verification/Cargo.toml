[package]
name = "european_choice"
version = "0.1.0"
edition = "2021"
publish = false

[dependencies]
scraper = "*"
heck = "*"
phf = "*"
phf_codegen = "*"
resvg = "*"
image = "*"
minreq = "*"
