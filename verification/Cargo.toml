[package]
name = "racer-tracer"
version = "0.1.0"
edition = "2021"
publish = false

[dependencies]
bus = "2"
sha2 = "0.10"
synchronoise = "1"
rayon = "1"
minifb = "0.25"
image = { version = "0.24", default-features = false, features = ["png", "jpeg"] }
serde = { version = "1", features = ["derive"] }
slog = "2"
slog-async = "2"
slog-term = "2"
structopt = "0.3"
console = "0.15"
dyn-clone = "1"
config = { version = "0.13", default-features = false, features = ["yaml"] }
