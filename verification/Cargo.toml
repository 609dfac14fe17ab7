[package]
name = "firm"
version = "0.1.0"
edition = "2021"
publish = false

[dependencies]
chrono = { version = "0.4", features = ["serde"] }
clap = { version = "4", features = ["derive"] }
console = "*"
convert_case = "*"
indicatif = "*"
indicatif-log-bridge = "*"
inquire = { version = "*", features = ["date"] }
iso_currency = { version = "*", features = ["with-serde", "iterator"] }
log = "0.4"
pathdiff = "*"
petgraph = { version = "*", features = ["serde-1"] }
rust_decimal = { version = "1", features = ["serde"] }
serde = { version = "1", features = ["derive"] }
serde_json = "1"
tree-sitter = "*"
