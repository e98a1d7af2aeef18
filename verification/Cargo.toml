[package]
name = "voxel_world"
version = "0.1.0"
edition = "2021"
publish = false

[dependencies]
bevy = { version = "=0.7.0", default-features = false, features = ["render"] }
block-mesh = "=0.2.0"
ndarray = "=0.15.6"
ndcopy = "=0.3.0"
enum-map = "=2.7.3"
leafwing-input-manager = { version = "=0.3.0", default-features = false }
iyes_loopless = "=0.5.1"
darling = "=0.13.4"
