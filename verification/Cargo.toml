[package]
name = "lights"
version = "0.1.0"
edition = "2021"
publish = false

[dependencies]
colored = "*"
env_logger = "*"
fs_extra = "*"
libloading = "*"
log = "*"
rand = "*"
serde_json = "*"
toml_edit = "*"
