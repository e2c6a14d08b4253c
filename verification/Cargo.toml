[package]
name = "events_to_lua"
version = "0.1.0"
edition = "2021"
publish = false

[dependencies]
gjson = "*"
rand = "0.7"
