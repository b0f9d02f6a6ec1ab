[package]
name = "curve_breakpoints"
version = "0.1.0"
edition = "2021"
publish = false

[dependencies]
fltk = "1.4"
plotters = { version = "0.3", default-features = false, features = ["bitmap_backend", "line_series", "point_series"] }
