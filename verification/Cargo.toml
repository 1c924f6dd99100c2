[package]
name = "semantic_release"
version = "0.1.0"
edition = "2021"
publish = false

[dependencies]
toml_edit = "*"
git2 = { version = "*", default-features = false }
structopt = "*"
log = "*"
simple_logger = "*"
