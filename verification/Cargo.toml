[package]
name = "melkkipdf"
version = "0.1.0"
edition = "2021"
publish = false

[dependencies]
mupdf = { version = "=0.8.0", default-features = false }
rfd = { version = "=0.17.2", default-features = false, features = ["xdg-portal"] }
rgb = "=0.8.53"
slint = { version = "=1.18.1", default-features = false, features = ["std", "compat-1-2"] }
