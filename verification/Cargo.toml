[package]
name = "media_pipeline"
version = "0.1.0"
edition = "2021"
publish = false

[dependencies]
glib = "*"
gstreamer = "*"
gstreamer-video = "*"
gtk4 = "*"
