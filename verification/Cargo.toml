[package]
name = "html_lang"
version = "0.1.0"
edition = "2021"
publish = false

[dependencies]
scraper = "*"
ego-tree = "*"
actix-web = "4"
actix-files = "0.6"
