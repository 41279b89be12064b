[package]
name = "ui_test"
version = "0.1.0"
edition = "2021"
publish = false

[dependencies]
regex = "*"
bstr = "*"
rustfix = "*"
crossbeam-channel = "*"
colored = "*"
color-eyre = "*"
rustc_version = "*"
diff = "*"
serde_json = "*"
