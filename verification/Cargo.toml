[package]
name = "input_service"
version = "0.1.0"
edition = "2021"
publish = false

[dependencies]
cfg-if = "=1.0.5"
ctrlc = "=3.5.2"
dispatch = "=0.2.0"
enigo = { version = "=0.6.1", default-features = false, features = ["x11rb", "platform_specific"] }
lazy_static = "=1.5.1"
log = "=0.4.35"
tokio = { version = "=1.54.1", features = ["rt", "macros", "time"] }
