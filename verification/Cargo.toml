[package]
name = "excel_cli"
version = "0.1.0"
edition = "2021"
publish = false

[dependencies]
anyhow = "1"
calamine = "0.22"
crossterm = "*"
simple_excel_writer = "0.2"
tui-textarea = "*"
