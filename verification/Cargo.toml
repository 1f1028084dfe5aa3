[package]
name = "byt"
version = "0.1.0"
edition = "2021"
publish = false

[dependencies]
clap = { version = "4", default-features = false, features = ["std", "derive", "help", "usage", "error-context"] }
directories = "6"
futures = "0.3"
iced = { version = "0.14", default-features = false, features = ["tiny-skia", "svg", "tokio", "x11", "wayland"] }
nix = { version = "0.31", features = ["fs"] }
rfd = "0.17"
serde = { version = "1", features = ["derive"] }
serde_json = "1"
thiserror = "2"
tokio = { version = "1", features = ["rt-multi-thread", "process", "time", "macros"] }
tracing = "0.1"
tracing-subscriber = { version = "0.3", default-features = false, features = ["fmt", "env-filter", "std"] }
zbus = "5"
