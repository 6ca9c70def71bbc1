[package]
name = "texe"
version = "0.1.0"
edition = "2021"
publish = false

[dependencies]
sha2 = "=0.10.9"
hex = "=0.4.3"
serde = { version = "=1.0.229", features = ["derive"] }
serde_json = "=1.0.154"
toml = "=0.8.23"
toml_edit = "=0.22.27"
clap = { version = "=4.6.7", features = ["derive"] }
cliclack = "=0.3.8"
ctrlc = "=3.5.2"
flate2 = "=1.1.10"
jsonc-parser = { version = "=0.34.0", features = ["cst", "serde_json"] }
zip = { version = "=2.6.1", default-features = false, features = ["deflate"] }
thiserror = "=1.0.69"

[dev-dependencies]
tempfile = "=3.27.0"
