[package]
name = "hue_life"
version = "0.1.0"
edition = "2021"
publish = false

[dependencies]
fastrand = "=2.5.0"
web-time = "=1.1.0"
log = "=0.4.34"
color-art = "=0.3.9"
