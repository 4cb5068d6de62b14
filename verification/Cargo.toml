[package]
name = "bevy_trenchbroom"
version = "0.1.0"
edition = "2021"
publish = false

[dependencies]
ndshape = "=0.3.0"
jzon = "=0.12.5"
serde_json = "=1.0.154"
indexmap = "=2.14.2"
thiserror = "=2.0.21"
heck = "0.5"
