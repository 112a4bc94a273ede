[package]
name = "spritec"
version = "0.1.0"
edition = "2021"
publish = false

[dependencies]
vek = "=0.14.1"
euc = "=0.5.3"
gltf = "=1.4.1"
tobj = "=4.0.5"
thiserror = "=2.0.21"
