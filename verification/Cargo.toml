[package]
name = "nara"
version = "0.1.0"
edition = "2021"
publish = false

[dependencies]
glam = "*"
bytes = "*"
bitcode = "*"
chacha20poly1305 = "*"
hkdf = "*"
sha2 = "*"
ed25519-dalek = "*"
x25519-dalek = { version = "*", features = ["static_secrets"] }
getrandom = "*"
tokio = { version = "*", features = ["full"] }
tokio-tungstenite = "*"
futures-util = { version = "*", features = ["sink"] }
dashmap = "*"
rayon = "*"
snafu = "*"
serde = { version = "*", features = ["derive"] }
serde_json = "*"
nanorand = "*"
paris = "*"
mlua = { version = "*", features = ["lua54", "vendored"] }
log = "*"
bytemuck = { version = "*", features = ["derive"] }
