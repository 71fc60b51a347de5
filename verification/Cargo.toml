[package]
name = "word_filter"
version = "0.1.0"
edition = "2021"
publish = false

[dependencies]
iced = "0.14"
iced_core = "0.14"
iced_widget = "0.14"
