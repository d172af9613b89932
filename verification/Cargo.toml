[package]
name = "seashell"
version = "0.1.0"
edition = "2021"
publish = false

[dependencies]
anyhow = "1"
clap = { version = "4", features = ["derive"] }
clap_complete = "4"
crossterm = "*"
derive_more = { version = "*", features = ["display", "from"] }
directories = "*"
indexmap = { version = "2", features = ["serde"] }
itertools = "*"
log = "0.4"
owo-colors = "4"
regex = "1"
rpassword = "7"
russh = "*"
serde = { version = "1", features = ["derive"] }
serde_json = "1"
serde_with_macros = "3"
serde_yml = "*"
smart-default = "*"
thiserror = "*"
tokio = { version = "1", features = ["rt-multi-thread", "macros", "fs", "io-util", "io-std", "net", "time"] }
tokio-fd = "*"
