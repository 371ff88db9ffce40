[package]
name = "pretty_git_prompt"
version = "0.2.0"
edition = "2021"
publish = false

[dependencies]
clap = "=4.6.7"
git2 = { version = "=0.20.4", default-features = false }
yaml-rust = "=0.4.5"

[dev-dependencies]
tempdir = "=0.3.7"
