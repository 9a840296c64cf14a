[package]
name = "waterui_barcode"
version = "0.1.0"
edition = "2021"
publish = false

[dependencies]
barcoders = "=2.0.0"
fast_qr = "=0.14.0"
kurbo = "=0.13.1"
thiserror = "=2.0.21"
nami = "=0.11.2"
peniko = "=0.6.1"
waterui-core = "=0.5.1"
waterui-graphics = "=0.5.1"
