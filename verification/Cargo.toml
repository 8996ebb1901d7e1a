[package]
name = "dioxus-type-animation"
version = "0.1.0"
edition = "2021"
publish = false

[dependencies]
dioxus = { version = "0.7", default-features = false, features = ["macro", "html", "signals", "hooks"] }
fastrand = "2"
gloo-timers = { version = "0.3", features = ["futures"] }
