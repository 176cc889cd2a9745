[package]
name = "schismrs-hgrid"
version = "0.1.0"
edition = "2021"
publish = false

[dependencies]
linked-hash-map = "*"
ndarray = "*"
sha2 = "*"
inpoly = "*"
proj = "*"
reqwest = { version = "*", default-features = false, features = ["blocking"] }
url = "*"
tempfile = "*"
thiserror = "*"
log = "*"
