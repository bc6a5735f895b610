[package]
name = "term_chat_ui"
version = "0.1.0"
edition = "2021"
publish = false

[dependencies]
ratatui = "=0.28.1"
tui-markdown = "=0.2.12"
similar = "=3.2.0"
textwrap = "=0.16.4"
unicode-width = "=0.2.0"
unicode-segmentation = "=1.13.3"
crossterm = "=0.29.0"
anyhow = "=1.0.104"
tokio = { version = "=1.53.2", features = ["full"] }
futures = "*"
async-channel = "*"
base64 = "*"
dirs = "*"
image = "=0.25.10"
arboard = "=3.6.1"
