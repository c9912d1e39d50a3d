[package]
name = "diagram_preview"
version = "0.1.0"
edition = "2021"
publish = false

[dependencies]
anyhow = "1"
log = "=0.4.35"
merman = "=0.9.3"
serde_json = "=1.0.154"
smol = "=2.0.2"
which = "=8.0.6"

[dev-dependencies]
pulldown-cmark = "=0.13.6"
usvg = "=0.49.0"
