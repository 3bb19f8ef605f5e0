[package]
name = "quest_discovery"
version = "0.1.0"
edition = "2021"
publish = false

[dependencies]
serde_json = "1"
cmake = "0.1"
pkg-config = "0.3"
cxx = "1"
cxx-build = "1"
ndarray = "0.16"
num-complex = "0.4"
