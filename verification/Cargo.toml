[package]
name = "chemodots"
version = "0.1.0"
edition = "2021"
publish = false

[dependencies]
chrono = "=0.4.45"
crossbeam = "=0.8.5"
diesel = { version = "=2.1.6", features = ["postgres", "r2d2", "chrono", "uuid"] }
diesel_migrations = { version = "=2.1.0", features = ["postgres"] }
dotenvy = "=0.15.7"
field_count = "=0.1.1"
itertools = "=0.12.1"
num_cpus = "=1.17.0"
plotters = { version = "=0.3.7", default-features = false, features = ["svg_backend", "histogram", "ab_glyph"] }
rayon = "=1.12.0"
rust_decimal = "=1.43.0"
scheduled-thread-pool = "=0.2.7"
serde = { version = "=1.0.229", features = ["derive"] }
serde_json = "=1.0.154"
unicode-segmentation = "=1.13.3"
uuid = { version = "=1.29.0", features = ["serde"] }
zip_next = { version = "=1.1.0", default-features = false, features = ["deflate"] }
