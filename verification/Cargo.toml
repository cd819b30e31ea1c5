[package]
name = "cargo_deny"
version = "0.1.0"
edition = "2021"
publish = false

[dependencies]
bitvec = "*"
serde_json = "*"
rayon = "*"
crates-index = "*"
semver = "*"
clap = { version = "*", features = ["derive", "env"] }
log = "*"
fern = "*"
ansi_term = "*"
atty = "*"
time = { version = "*", features = ["formatting", "macros"] }
anyhow = "*"
