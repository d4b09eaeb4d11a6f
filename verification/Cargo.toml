[package]
name = "reporte_contrataciones"
version = "0.1.0"
edition = "2021"
publish = false

[dependencies]
rusqlite = { version = "0.34", features = ["bundled"] }
chrono = "0.4"
eframe = { version = "0.29", default-features = false, features = ["glow"] }
egui_extras = { version = "0.29", default-features = false }
egui_plot = { version = "0.29", default-features = false }
open = "5"
rust_xlsxwriter = "0.82"
printpdf = "0.7"
image = { version = "0.24", default-features = false, features = ["png"] }
pptx = "0.1"
