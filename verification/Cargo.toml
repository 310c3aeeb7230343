[package]
name = "worldengine_rapier"
version = "0.1.0"
edition = "2021"
publish = false

[dependencies]
dashmap = "=6.2.1"
jni = "=0.21.1"
rapier3d = "=0.36.1"
log = "=0.4.35"
fern = { version = "=0.7.1", features = ["colored"] }
humantime = "=2.4.0"
