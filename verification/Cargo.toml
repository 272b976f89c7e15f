[package]
name = "libtest2"
version = "0.1.0"
edition = "2021"
publish = false

[dependencies]
lexarg-parser = "*"
lexarg-error = "*"
anstyle = "*"
anstream = "*"
ctor = "*"
serde = { version = "1", features = ["derive"] }
serde_json = "1"
