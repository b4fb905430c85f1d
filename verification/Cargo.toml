[package]
name = "source_cli"
version = "0.1.0"
edition = "2021"
publish = false

[dependencies]
anyhow = "=1.0.104"
clap = "=4.6.7"
quickwit-common = "=0.3.0"
quickwit-metastore = "=0.3.0"
serde_json = "=1.0.151"
tabled = "=0.22.0"
