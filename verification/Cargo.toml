[package]
name = "speciesnet"
version = "0.1.0"
edition = "2021"
publish = false

[dependencies]
anyhow = "=1.0.104"
clap = { version = "=4.6.7", features = ["derive"] }
csv = "=1.4.0"
directories = "=6.0.0"
fast_image_resize = "=6.1.0"
image = { version = "=0.25.10", default-features = false, features = ["jpeg", "png"] }
mozjpeg = "=0.10.13"
ndarray = "=0.16.1"
num_cpus = "=1.17.0"
ort = { version = "=2.0.0-rc.9", default-features = false, features = ["ndarray", "load-dynamic"] }
# ort 2.0.0-rc.9 compiles only against the ort-sys of the same release candidate;
# left to itself the resolver picks a later one.
ort-sys = "=2.0.0-rc.9"
rayon = "=1.12.0"
serde = { version = "=1.0.229", features = ["derive"] }
serde_json = "=1.0.154"
thiserror = "=2.0.21"
tracing = "=0.1.44"
tracing-subscriber = { version = "=0.3.23", features = ["env-filter"] }
ureq = "=3.5.0"
uuid = "=1.29.0"
walkdir = "=2.5.0"
zip = { version = "=9.1.0", default-features = false, features = ["deflate"] }
