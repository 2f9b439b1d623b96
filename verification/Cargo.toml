[package]
name = "yew_nested_router"
version = "0.1.0"
edition = "2021"
publish = false

[dependencies]
yew = "0.21"
gloo-history = "0.2"
