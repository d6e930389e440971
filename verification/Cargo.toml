[package]
name = "freya_host"
version = "0.1.0"
edition = "2021"
publish = false

[dependencies]
tokio = { version = "=1.54.1", default-features = false, features = ["sync", "macros", "rt"] }
winit = { version = "=0.29.15", default-features = false, features = ["x11", "rwh_06"] }
uuid = "=1.29.0"
accesskit = "0.12"
accesskit_winit = { version = "0.18", default-features = false, features = ["rwh_06"] }
dioxus-core = "=0.5.6"
dioxus-signals = "=0.5.7"
futures-task = "=0.3.34"
futures-util = "=0.3.34"
pin-utils = "=0.1.1"
torin = "=0.4.3"
tracing = "=0.1.44"
