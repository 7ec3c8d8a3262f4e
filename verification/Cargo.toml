[package]
name = "rgpre"
version = "0.1.0"
edition = "2021"
publish = false

[dependencies]
delharc = "=0.8.0"
clap = { version = "=4.6.7", features = ["derive", "env"] }
clap-verbosity-flag = "=3.0.4"
env_logger = "=0.11.11"
log = "=0.4.35"
image = { version = "=0.25.10", default-features = false, features = ["png", "gif"] }
hound = "=3.5.1"
serde_json = "=1.0.154"
walkdir = "=2.5.0"
glam = "=0.34.2"
gltf-json = { version = "=1.4.1", features = ["KHR_lights_punctual", "names"] }
gltf = { version = "=1.4.1", default-features = false, features = ["KHR_lights_punctual"] }
bitmap2ttf = "=0.1.2"
thiserror = "=2.0.21"
rayon = "=1.12.0"
bytemuck = { version = "=1.25.2", features = ["derive"] }

[dev-dependencies]
ttf-parser = "=0.25.1"
