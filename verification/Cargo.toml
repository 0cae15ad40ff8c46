[package]
name = "adf_convert"
version = "0.1.0"
edition = "2021"
publish = false

[dependencies]
chrono = "=0.4.45"
html-escape = "=0.2.15"
urlencoding = "=2.1.3"
html5ever = "=0.39.0"
markup5ever_rcdom = "=0.39.0"
htmd = "=0.5.5"
markdown = "=1.0.0"
serde_json = "=1.0.151"
