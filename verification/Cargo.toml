[package]
name = "rebase_editor"
version = "0.1.0"
edition = "2021"
publish = false

[dependencies]
chrono = { version = "0.4", default-features = false, features = ["std"] }
clap = { version = "4", features = ["derive"] }
color-eyre = "0.6"
git2 = { version = "*", default-features = false }
ratatui = "0.29"
