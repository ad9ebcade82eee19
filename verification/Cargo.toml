[package]
name = "render_slides"
version = "0.1.0"
edition = "2021"
publish = false

[dependencies]
pulldown-cmark = { version = "0.13", default-features = false }
zip = { version = "2", default-features = false }
base64 = "0.22"
url = "2"
serde = { version = "1", features = ["derive"] }
serde_json = "1"
jsonschema = { version = "*", default-features = false }
reqwest = { version = "0.12", default-features = false, features = ["blocking", "rustls-tls"] }
pyo3 = "*"
cosmic-text = "*"
image = { version = "*", default-features = false, features = ["png", "jpeg", "gif"] }
cairo-rs = "*"
pango = "*"
pangocairo = "*"
glib = "*"
