[package]
name = "butterscotch_core"
version = "0.1.0"
edition = "2021"
publish = false

[dependencies]
pc-keyboard = "=0.9.0"
x86_64 = { version = "=0.15.5", default-features = false, features = ["instructions"] }
pic8259 = "=0.11.0"
uart_16550 = "=0.8.1"
spin = "=0.12.3"
talc = "=5.1.1"
noto-sans-mono-bitmap = "=0.3.2"
