[package]
name = "zellij_pick_vim_target"
version = "0.1.0"
edition = "2021"
publish = false

[dependencies]
zellij-tile = "=0.44.3"
