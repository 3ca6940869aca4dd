[package]
name = "open_detect"
version = "0.1.0"
edition = "2021"
publish = false

[dependencies]
yara-x = { version = "=1.22.1", default-features = false, features = ["constant-folding", "default-modules", "exact-atoms", "fast-regexp"] }
archive = "=0.4.0"
infer = "=0.22.0"
mime-type = "=0.2.1"
thiserror = "=2.0.21"
