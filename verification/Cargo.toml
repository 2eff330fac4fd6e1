[package]
name = "spyglass"
version = "0.1.0"
edition = "2021"
publish = false

[dependencies]
anyhow = "1"
async-trait = "0.1"
chrono = "0.4"
ignore = "0.4"
lnk = "0.5"
sea-orm-migration = { version = "0.10", default-features = false }
url = "2"
