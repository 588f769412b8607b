[package]
name = "mark2pdf"
version = "0.1.0"
edition = "2021"
publish = false

[dependencies]
pulldown-cmark = { version = "0.9", default-features = false }
html5ever = "0.26"
markup5ever_rcdom = "0.2"
image = { version = "0.24", default-features = false, features = ["png", "jpeg"] }
printpdf = "0.7"
