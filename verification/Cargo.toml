[package]
name = "branch_picker"
version = "0.1.0"
edition = "2021"
publish = false

[dependencies]
anyhow = "1"
chrono = "0.4"
git2 = { version = "0.18", default-features = false }
skim = { version = "0.10", default-features = false }
