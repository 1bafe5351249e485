[package]
name = "stack_editor"
version = "0.1.0"
edition = "2021"
publish = false

[dependencies]
crossterm = "0.25"
hvm = "0.1"
im = "15"
tui = "0.19"
