[package]
name = "ariane"
version = "0.1.0"
edition = "2021"
publish = false

[dependencies]
goblin = "0.8"
pdb = "0.8"
iced-x86 = "1"
fuzzyhash = "*"
toml_edit = "0.21"
clap = { version = "4", features = ["derive"] }
env_logger = "*"
log = "0.4"
serde = { version = "1", features = ["derive"] }
serde_json = "1"
reqwest = { version = "0.11", features = ["blocking"] }
crates_io_api = "0.8"
flate2 = "1"
tar = "0.4"
indicatif = "0.17"
