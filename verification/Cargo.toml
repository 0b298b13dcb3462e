[package]
name = "pdf_service"
version = "0.1.0"
edition = "2021"
publish = false

[dependencies]
html-escape = "0.2"
pdfium-render = "*"
thiserror = "1"
tokio = { version = "1", features = ["rt", "sync"] }
tracing = "0.1"
