[package]
name = "treasuror"
version = "0.1.0"
edition = "2021"
publish = false

[dependencies]
chrono = "0.4"
numeral = "1"
tabular = "0.2"
textwrap = "0.16"
plotters = { version = "0.3", default-features = false, features = ["bitmap_backend", "bitmap_encoder", "datetime", "line_series", "point_series"] }
