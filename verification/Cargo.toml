[package]
name = "paneflow"
version = "0.1.0"
edition = "2021"
publish = false

[dependencies]
anyhow = "1"
dirs = "*"
libc = "0.2"
log = "0.4"
minisign-verify = "0.2"
parking_lot = "0.12"
semver = "1"
serde = { version = "1", features = ["derive"] }
sha2 = "0.10"
unicode-segmentation = "1"
ureq = { version = "3", features = ["json"] }
which = "*"

[dev-dependencies]
minisign = "*"
tempfile = "3"
