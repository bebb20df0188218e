[package]
name = "bg3_debug_tool"
version = "0.1.0"
edition = "2021"
publish = false

[dependencies]
uuid = "=1.29.0"
serde = { version = "=1.0.229", features = ["derive"] }
quick-xml = { version = "=0.42.0", features = ["serialize"] }
egui = "=0.37.0"
libc = "=0.2.191"
widestring = "=1.2.1"
unicode-ident = "=1.0.27"
