[package]
name = "sure_protocol"
version = "0.1.0"
edition = "2021"
publish = false

[dependencies]
anchor-lang = "=0.25.0"
anchor-spl = "=0.25.0"
mpl-token-metadata = "1.6.5"
vipers = "2.0.6"
bytemuck = { version = "1", features = ["derive"] }
