[package]
name = "backpack"
version = "0.1.0"
edition = "2021"
publish = false

[dependencies]
anyhow = "*"
cached-path = "=0.10.1"
clap = "3"
console = "*"
content_inspector = "=0.2.4"
dirs = "*"
regex = "=1.13.1"
requestty = "=0.7.0"
run_script = "=0.11.2"
serde = { version = "*", features = ["derive"] }
serde_yaml = "=0.9.34"
tempfile = "=3.27.0"
tera = "1"
tera-text-filters = "=1.0.0"
url = "=2.5.8"
walkdir = "=2.5.0"
