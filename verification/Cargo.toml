[package]
name = "qr_image"
version = "0.1.0"
edition = "2021"
publish = false

[dependencies]
qrcode-generator = { version = "=6.1.2", default-features = false, features = ["qr"] }
image = { version = "=0.25.10", default-features = false, features = ["png"] }
candid = "=0.10.37"
ic-cdk = "=0.20.3"
serde = "=1.0.229"

[dev-dependencies]
quircs = "=0.10.3"
