[package]
name = "wiktionary_defs"
version = "0.1.0"
edition = "2021"
publish = false

[dependencies]
html5ever = "=0.39.0"
markup5ever_rcdom = "=0.39.0"
reqwest = "=0.13.5"
tokio = { version = "=1.54.1", features = ["macros", "rt-multi-thread", "time"] }
