[package]
name = "pane_shortcuts"
version = "0.1.0"
edition = "2021"
publish = false

[dependencies]
kdl = "*"
zellij-tile = "*"
