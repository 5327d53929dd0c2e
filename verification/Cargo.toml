[package]
name = "ri"
version = "0.1.0"
edition = "2021"
publish = false

[dependencies]
ropey = { version = "1", default-features = false }
uuid = { version = "1", features = ["v4"] }
tui = { version = "0.19", default-features = false, features = ["crossterm"] }
crossterm = "0.25"
id_tree = "1"
syntect = { version = "5", default-features = false, features = ["default-fancy"] }
arboard = "3"
argh = "0.1"
log = "0.4"
log4rs = "1"
anyhow = "1"
tokio = { version = "1", features = ["process", "io-util", "macros", "rt-multi-thread"] }
lsp-server = "0.7"
lsp-types = "0.94"
serde_json = "1"
compressed_string = "*"
actix = "0.13"
unicode-width = "0.1"
