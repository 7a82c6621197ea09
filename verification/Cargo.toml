[package]
name = "socialverse"
version = "0.1.0"
edition = "2021"
publish = false

[dependencies]
axum = "0.6"
clap = { version = "4", features = ["derive", "env"] }
color-eyre = "0.6"
diesel = { version = "2", default-features = false, features = ["postgres"] }
dioxus = "0.4"
dotenvy = "0.15"
hyper = "0.14"
rand = "0.8"
tokio = { version = "1", features = ["macros", "rt-multi-thread", "sync", "time"] }
tower = "0.4"
tower-http = { version = "0.4", features = ["cors", "trace"] }
tracing = "0.1"
