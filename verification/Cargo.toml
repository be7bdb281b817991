[package]
name = "templater"
version = "0.1.0"
edition = "2021"
publish = false

[dependencies]
extract-frontmatter = "=2.1.0"
once_cell = "=1.21.4"
pico-args = "=0.5.0"
